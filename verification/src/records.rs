//! Custom record map: the keyed extension container carried inside payment
//! requests and responses.
//!
//! A record map takes a 32-bit key to an arbitrary byte string; keys are
//! unique. The map never interprets record contents — it only transports
//! them. On the wire each key is codec-encoded as a 32-bit value and each
//! value as a byte string; entries appear in strictly ascending key order,
//! which is the documented canonical order this codec emits and the only one
//! it accepts, making the encoding deterministic and the round trip exact.

use vstd::prelude::*;

use crate::codec::CodecError;
use crate::codec::decode_bytes;
use crate::codec::decode_u32;
use crate::codec::encode_bytes;
use crate::codec::encode_u32;
use crate::codec::spec_decode_bytes;
use crate::codec::spec_decode_uint;
use crate::codec::spec_encode_bytes;
use crate::codec::spec_encode_uint;
use crate::codec::lemma_uint_round_trip;
use crate::codec::lemma_bytes_round_trip;

verus! {

/// The custom records to be included in a payment: a map from 32-bit key to
/// byte string, held as entries sorted by strictly ascending key.
#[derive(Clone, Debug, PartialEq, Eq)]
pub struct PaymentCustomRecords {
    data: Vec<(u32, Vec<u8>)>,
}

/// Entry sequences with strictly ascending keys: every key occurs once and
/// the order is canonical.
pub open spec fn records_sorted(s: Seq<(u32, Seq<u8>)>) -> bool {
    forall|i: int, j: int|
        0 <= i < j < s.len() ==> (#[trigger] s[i]).0 < (#[trigger] s[j]).0
}

/// Abstract entries of a record map.
pub open spec fn map_entries(d: Seq<(u32, Vec<u8>)>) -> Seq<(u32, Seq<u8>)> {
    d.map_values(|p: (u32, Vec<u8>)| (p.0, p.1@))
}

/// Insertion into an entry sequence sorted by key: replaces the value when
/// the key is present, else places the new entry at its ordered position.
pub open spec fn spec_insert_record(s: Seq<(u32, Seq<u8>)>, k: u32, v: Seq<u8>) -> Seq<
    (u32, Seq<u8>),
>
    decreases s.len(),
{
    if s.len() == 0 {
        seq![(k, v)]
    } else if s.last().0 < k {
        s.push((k, v))
    } else if s.last().0 == k {
        s.drop_last().push((k, v))
    } else {
        spec_insert_record(s.drop_last(), k, v).push(s.last())
    }
}

/// The value held under a key, if any.
pub open spec fn spec_lookup(s: Seq<(u32, Seq<u8>)>, k: u32) -> Option<Seq<u8>>
    decreases s.len(),
{
    if s.len() == 0 {
        None
    } else if s.last().0 == k {
        Some(s.last().1)
    } else {
        spec_lookup(s.drop_last(), k)
    }
}

proof fn lemma_insert_record_sorted(s: Seq<(u32, Seq<u8>)>, k: u32, v: Seq<u8>)
    requires
        records_sorted(s),
    ensures
        records_sorted(spec_insert_record(s, k, v)),
        forall|j: int|
            0 <= j < spec_insert_record(s, k, v).len() ==> ((#[trigger] spec_insert_record(
                s,
                k,
                v,
            )[j]).0 == k || (exists|i: int|
                0 <= i < s.len() && spec_insert_record(s, k, v)[j].0 == (#[trigger] s[i]).0)),
    decreases s.len(),
{
    let r = spec_insert_record(s, k, v);
    if s.len() == 0 {
    } else if s.last().0 < k {
        assert forall|i: int, j: int| 0 <= i < j < r.len() implies (#[trigger] r[i]).0 < (
        #[trigger] r[j]).0 by {
            if j < s.len() {
            } else {
                if i < s.len() - 1 {
                    assert(s[i].0 < s[s.len() - 1].0);
                }
            }
        }
    } else if s.last().0 == k {
        assert forall|i: int, j: int| 0 <= i < j < r.len() implies (#[trigger] r[i]).0 < (
        #[trigger] r[j]).0 by {
            if j == r.len() - 1 {
                assert(s[i].0 < s[s.len() - 1].0);
            }
        }
    } else {
        lemma_insert_record_sorted(s.drop_last(), k, v);
        let rr = spec_insert_record(s.drop_last(), k, v);
        assert forall|i: int, j: int| 0 <= i < j < r.len() implies (#[trigger] r[i]).0 < (
        #[trigger] r[j]).0 by {
            if j == r.len() - 1 {
                assert(r[j] == s.last());
                assert(rr[i].0 == k || (exists|m: int|
                    0 <= m < s.drop_last().len() && rr[i].0 == (#[trigger] s.drop_last()[m]).0));
                if rr[i].0 != k {
                    let m = choose|m: int|
                        0 <= m < s.drop_last().len() && rr[i].0 == (#[trigger] s.drop_last()[m]).0;
                    assert(s[m].0 < s[s.len() - 1].0);
                }
            }
        }
    }
}

fn insert_rec(data: Vec<(u32, Vec<u8>)>, key: u32, value: Vec<u8>) -> (r: Vec<(u32, Vec<u8>)>)
    ensures
        map_entries(r@) == spec_insert_record(map_entries(data@), key, value@),
    decreases data@.len(),
{
    let mut data = data;
    let ghost s = map_entries(data@);
    match data.pop() {
        None => {
            data.push((key, value));
            proof {
                assert(s.len() == 0);
                assert(map_entries(data@) =~= seq![(key, value@)]);
            }
            data
        },
        Some(last) => {
            proof {
                assert(map_entries(data@) =~= s.drop_last());
                assert(s.last() == (last.0, last.1@));
            }
            if last.0 < key {
                data.push(last);
                data.push((key, value));
                proof {
                    assert(map_entries(data@) =~= s.push((key, value@)));
                }
                data
            } else if last.0 == key {
                data.push((key, value));
                proof {
                    assert(map_entries(data@) =~= s.drop_last().push((key, value@)));
                }
                data
            } else {
                let mut r = insert_rec(data, key, value);
                r.push(last);
                proof {
                    assert(map_entries(r@) =~= spec_insert_record(s.drop_last(), key, value@).push(
                        s.last(),
                    ));
                }
                r
            }
        },
    }
}

impl PaymentCustomRecords {
    /// Abstract contents: the entry sequence, keys paired with byte strings.
    pub closed spec fn entries(&self) -> Seq<(u32, Seq<u8>)> {
        map_entries(self.data@)
    }

    /// Validity: entries are sorted by strictly ascending key, so every key
    /// occurs at most once. Every map built through this interface satisfies
    /// it.
    pub open spec fn wf(&self) -> bool {
        records_sorted(self.entries())
    }

    /// An empty record map.
    pub fn new() -> (r: Self)
        ensures
            r.wf(),
            r.entries() == Seq::<(u32, Seq<u8>)>::empty(),
    {
        let r = PaymentCustomRecords { data: Vec::new() };
        proof {
            assert(r.entries() =~= Seq::<(u32, Seq<u8>)>::empty());
        }
        r
    }

    /// Number of records held.
    pub fn len(&self) -> (r: usize)
        ensures
            r == self.entries().len(),
    {
        self.data.len()
    }

    /// Insert a record, replacing any value already held under the key.
    pub fn insert(&mut self, key: u32, value: Vec<u8>)
        requires
            old(self).wf(),
        ensures
            final(self).wf(),
            final(self).entries() == spec_insert_record(old(self).entries(), key, value@),
    {
        let mut data: Vec<(u32, Vec<u8>)> = Vec::new();
        core::mem::swap(&mut data, &mut self.data);
        let ghost s = map_entries(data@);
        self.data = insert_rec(data, key, value);
        proof {
            lemma_insert_record_sorted(s, key, value@);
        }
    }

    /// The value held under a key, if any.
    pub fn get(&self, key: u32) -> (r: Option<&Vec<u8>>)
        ensures
            r matches Some(v) ==> spec_lookup(self.entries(), key) == Some(v@),
            r is None ==> spec_lookup(self.entries(), key) is None,
    {
        let mut i: usize = self.data.len();
        proof {
            assert(self.entries().take(self.data@.len() as int) =~= self.entries());
        }
        while i > 0
            invariant
                i <= self.data@.len(),
                spec_lookup(self.entries(), key) == spec_lookup(
                    self.entries().take(i as int),
                    key,
                ),
            decreases i,
        {
            proof {
                let t = self.entries().take(i as int);
                assert(t.last() == self.entries()[i - 1]);
                assert(t.drop_last() =~= self.entries().take(i - 1));
            }
            if self.data[i - 1].0 == key {
                return Some(&self.data[i - 1].1);
            }
            i -= 1;
        }
        proof {
            assert(self.entries().take(0) =~= Seq::<(u32, Seq<u8>)>::empty());
        }
        None
    }
}

impl Default for PaymentCustomRecords {
    /// An empty record map.
    fn default() -> (r: Self)
        ensures
            r.wf(),
            r.entries() == Seq::<(u32, Seq<u8>)>::empty(),
    {
        PaymentCustomRecords::new()
    }
}

/// Abstract view of a wire form: each entry as its key text and value text.
pub open spec fn wire_view(w: Seq<(Vec<u8>, Vec<u8>)>) -> Seq<(Seq<u8>, Seq<u8>)> {
    w.map_values(|p: (Vec<u8>, Vec<u8>)| (p.0@, p.1@))
}

/// Canonical wire form of an entry sequence: each key as a 32-bit value text,
/// each value as a byte-string text, entries in the map's ascending order.
pub open spec fn spec_encode_records(s: Seq<(u32, Seq<u8>)>) -> Seq<(Seq<u8>, Seq<u8>)> {
    s.map_values(|p: (u32, Seq<u8>)| (spec_encode_uint(p.0 as nat), spec_encode_bytes(p.1)))
}

/// Meaning of a wire form: every key text a 32-bit value, every value text a
/// byte string, keys strictly ascending; anything else is malformed.
pub open spec fn spec_decode_records(w: Seq<(Seq<u8>, Seq<u8>)>) -> Option<Seq<(u32, Seq<u8>)>>
    decreases w.len(),
{
    if w.len() == 0 {
        Some(Seq::empty())
    } else {
        match spec_decode_records(w.drop_last()) {
            None => None,
            Some(s) => match (spec_decode_uint(w.last().0), spec_decode_bytes(w.last().1)) {
                (Some(k), Some(v)) => {
                    if k <= u32::MAX as nat && (s.len() == 0 || s.last().0 < k) {
                        Some(s.push((k as u32, v)))
                    } else {
                        None
                    }
                },
                _ => None,
            },
        }
    }
}

/// Encode a record map into its canonical wire form.
pub fn encode_records(m: &PaymentCustomRecords) -> (r: Vec<(Vec<u8>, Vec<u8>)>)
    ensures
        wire_view(r@) == spec_encode_records(m.entries()),
{
    let mut out: Vec<(Vec<u8>, Vec<u8>)> = Vec::new();
    let mut i: usize = 0;
    while i < m.data.len()
        invariant
            i <= m.data@.len(),
            wire_view(out@) == spec_encode_records(m.entries().take(i as int)),
        decreases m.data@.len() - i,
    {
        let kt = encode_u32(m.data[i].0);
        let vt = encode_bytes(m.data[i].1.as_slice());
        let ghost before = out@;
        out.push((kt, vt));
        proof {
            let e = m.entries();
            assert(e[i as int] == (m.data@[i as int].0, m.data@[i as int].1@));
            assert(wire_view(before).len() == before.len());
            assert(spec_encode_records(e.take(i as int)).len() == i);
            assert(before.len() == i);
            assert forall|j: int| 0 <= j < out@.len() implies (#[trigger] wire_view(out@)[j])
                == spec_encode_records(e.take(i + 1))[j] by {
                assert(wire_view(out@)[j] == (out@[j].0@, out@[j].1@));
                if j < i as int {
                    assert(out@[j] == before[j]);
                    assert(wire_view(before)[j] == (before[j].0@, before[j].1@));
                    assert(spec_encode_records(e.take(i as int))[j] == spec_encode_records(
                        e.take(i + 1),
                    )[j]);
                } else {
                    assert(out@[j] == (kt, vt));
                }
            }
            assert(wire_view(out@) =~= spec_encode_records(e.take(i + 1)));
        }
        i += 1;
    }
    proof {
        assert(m.entries().take(m.data@.len() as int) =~= m.entries());
    }
    out
}

proof fn lemma_decode_records_prefix_none(w: Seq<(Seq<u8>, Seq<u8>)>, i: int)
    requires
        0 <= i <= w.len(),
        spec_decode_records(w.take(i)) is None,
    ensures
        spec_decode_records(w) is None,
    decreases w.len() - i,
{
    if i < w.len() {
        assert(w.take(i + 1).drop_last() =~= w.take(i));
        lemma_decode_records_prefix_none(w, i + 1);
    } else {
        assert(w.take(i) =~= w);
    }
}

/// Decode a wire form back into a record map.
pub fn decode_records(w: &Vec<(Vec<u8>, Vec<u8>)>) -> (r: Result<PaymentCustomRecords, CodecError>)
    ensures
        r matches Ok(m) ==> m.wf() && spec_decode_records(wire_view(w@)) == Some(m.entries()),
        r is Err ==> spec_decode_records(wire_view(w@)) is None,
{
    let ghost wv = wire_view(w@);
    let mut out: Vec<(u32, Vec<u8>)> = Vec::new();
    let mut i: usize = 0;
    while i < w.len()
        invariant
            i <= w@.len(),
            wv == wire_view(w@),
            spec_decode_records(wv.take(i as int)) == Some(map_entries(out@)),
            records_sorted(map_entries(out@)),
        decreases w@.len() - i,
    {
        proof {
            assert(wv.take(i + 1).drop_last() =~= wv.take(i as int));
            assert(wv.take(i + 1).last() == (w@[i as int].0@, w@[i as int].1@));
        }
        let k = match decode_u32(w[i].0.as_slice()) {
            Ok(k) => k,
            Err(_) => {
                proof {
                    lemma_decode_records_prefix_none(wv, i + 1);
                }
                return Err(CodecError::MalformedEncoding);
            },
        };
        let v = match decode_bytes(w[i].1.as_slice()) {
            Ok(v) => v,
            Err(_) => {
                proof {
                    lemma_decode_records_prefix_none(wv, i + 1);
                }
                return Err(CodecError::MalformedEncoding);
            },
        };
        if out.len() > 0 {
            let lk = out[out.len() - 1].0;
            proof {
                assert(map_entries(out@).last() == (out@.last().0, out@.last().1@));
            }
            if lk >= k {
                proof {
                    lemma_decode_records_prefix_none(wv, i + 1);
                }
                return Err(CodecError::MalformedEncoding);
            }
        }
        let ghost before = map_entries(out@);
        out.push((k, v));
        proof {
            assert(map_entries(out@) =~= before.push((k, v@)));
            assert forall|a: int, b: int| 0 <= a < b < map_entries(out@).len() implies (
            #[trigger] map_entries(out@)[a]).0 < (#[trigger] map_entries(out@)[b]).0 by {
                if b == map_entries(out@).len() - 1 && before.len() > 0 {
                    if a < before.len() - 1 {
                        assert(before[a].0 < before[before.len() - 1].0);
                    }
                }
            }
        }
        i += 1;
    }
    proof {
        assert(wv.take(i as int) =~= wv);
    }
    Ok(PaymentCustomRecords { data: out })
}

/// Round trip for record maps: decoding the canonical wire form of any valid
/// map yields exactly that map's entries back.
pub proof fn lemma_records_round_trip(s: Seq<(u32, Seq<u8>)>)
    requires
        records_sorted(s),
    ensures
        spec_decode_records(spec_encode_records(s)) == Some(s),
    decreases s.len(),
{
    let w = spec_encode_records(s);
    if s.len() == 0 {
        assert(w.len() == 0);
    } else {
        assert(records_sorted(s.drop_last()));
        lemma_records_round_trip(s.drop_last());
        assert(w.drop_last() =~= spec_encode_records(s.drop_last()));
        assert(w.last() == (spec_encode_uint(s.last().0 as nat), spec_encode_bytes(s.last().1)));
        lemma_uint_round_trip(s.last().0 as nat);
        lemma_bytes_round_trip(s.last().1);
        if s.len() > 1 {
            assert(s.drop_last().last().0 < s.last().0);
        }
        assert(spec_decode_records(w) == Some(s.drop_last().push(s.last())));
        assert(s.drop_last().push(s.last()) =~= s);
    }
}

} // verus!

//! The byte encoding of the persisted sync state.
//!
//! The record is a count followed by that many entries; an entry is the
//! relative path, the remote identifier — each as a little-endian `u64`
//! byte length and UTF-8 bytes — and the last-modified time as a
//! little-endian `u64`.  Decoding accepts exactly what encoding produces:
//! anything else, a truncated file, stray trailing bytes, or a repeated
//! path, is rejected, and the caller falls back to the empty state.

use vstd::prelude::*;

use vstd::bytes::{
    lemma_auto_spec_u64_to_from_le_bytes, spec_u64_from_le_bytes, spec_u64_to_le_bytes,
    u64_from_le_bytes, u64_to_le_bytes,
};
use vstd::slice::{slice_subrange, slice_to_vec};
use vstd::utf8::{decode_utf8, encode_utf8, encode_utf8_decode_utf8, encode_utf8_valid_utf8,
    valid_utf8};

use crate::keyed::{kv_find, kv_uniq, lemma_kv_find_none, lemma_kv_find_some_index,
    lemma_kv_uniq_pairwise, lemma_kv_upsert_absent};
use crate::state::{SyncState, SyncStateEntry};

verus! {

/// A string as stored: its UTF-8 length, then its UTF-8 bytes.
pub open spec fn encode_str_spec(s: Seq<char>) -> Seq<u8> {
    spec_u64_to_le_bytes(encode_utf8(s).len() as u64) + encode_utf8(s)
}

/// One entry as stored.
pub open spec fn encode_entry_spec(e: (Seq<char>, (Seq<char>, u64))) -> Seq<u8> {
    encode_str_spec(e.0) + encode_str_spec(e.1.0) + spec_u64_to_le_bytes(e.1.1)
}

/// All entries, in order.
pub open spec fn encode_entries_spec(s: Seq<(Seq<char>, (Seq<char>, u64))>) -> Seq<u8>
    decreases s.len(),
{
    if s.len() == 0 {
        Seq::empty()
    } else {
        encode_entry_spec(s[0]) + encode_entries_spec(s.drop_first())
    }
}

/// The whole record: the entry count, then the entries.
pub open spec fn encode_state_spec(s: Seq<(Seq<char>, (Seq<char>, u64))>) -> Seq<u8> {
    spec_u64_to_le_bytes(s.len() as u64) + encode_entries_spec(s)
}

proof fn lemma_encode_entries_concat(
    a: Seq<(Seq<char>, (Seq<char>, u64))>,
    b: Seq<(Seq<char>, (Seq<char>, u64))>,
)
    ensures
        encode_entries_spec(a + b) == encode_entries_spec(a) + encode_entries_spec(b),
    decreases a.len(),
{
    if a.len() == 0 {
        assert(a + b =~= b);
        assert(encode_entries_spec(a) + encode_entries_spec(b) =~= encode_entries_spec(b));
    } else {
        lemma_encode_entries_concat(a.drop_first(), b);
        assert((a + b).drop_first() =~= a.drop_first() + b);
        assert(encode_entries_spec(a + b) =~= encode_entries_spec(a) + encode_entries_spec(b));
    }
}

/// Appends the stored form of one string.
fn append_str(out: &mut Vec<u8>, s: &str)
    ensures
        final(out)@ == old(out)@ + encode_str_spec(s@),
{
    let b = s.as_bytes();
    proof {
        assert(b@ == encode_utf8(s@));
    }
    let mut lb = u64_to_le_bytes(b.len() as u64);
    out.append(&mut lb);
    out.extend_from_slice(b);
    proof {
        assert(final(out)@ =~= old(out)@ + encode_str_spec(s@));
    }
}

/// Serializes the record.
pub fn encode_state(st: &SyncState) -> (r: Vec<u8>)
    ensures
        r@ == encode_state_spec(st@),
{
    let n = st.entries.len();
    let mut out = u64_to_le_bytes(n as u64);
    let mut i: usize = 0;
    proof {
        assert(st@.take(0) =~= Seq::<(Seq<char>, (Seq<char>, u64))>::empty());
    }
    while i < n
        invariant
            n == st.entries.len(),
            i <= n,
            out@ == spec_u64_to_le_bytes(n as u64) + encode_entries_spec(st@.take(i as int)),
        decreases n - i,
    {
        append_str(&mut out, st.entries[i].path.as_str());
        append_str(&mut out, st.entries[i].cloud_id.as_str());
        let mut lmb = u64_to_le_bytes(st.entries[i].last_modified);
        out.append(&mut lmb);
        proof {
            let sv = st@;
            let j = i as int;
            assert(sv.take(j + 1) =~= sv.take(j) + seq![sv[j]]);
            lemma_encode_entries_concat(sv.take(j), seq![sv[j]]);
            assert(seq![sv[j]].drop_first()
                =~= Seq::<(Seq<char>, (Seq<char>, u64))>::empty());
            assert(encode_entries_spec(Seq::<(Seq<char>, (Seq<char>, u64))>::empty())
                =~= Seq::<u8>::empty());
            assert(seq![sv[j]][0] == sv[j]);
            assert(encode_entries_spec(seq![sv[j]]) =~= encode_entry_spec(sv[j]));
            assert(out@ =~= spec_u64_to_le_bytes(n as u64) + encode_entries_spec(
                sv.take(j + 1),
            ));
        }
        i = i + 1;
    }
    proof {
        assert(st@.take(n as int) =~= st@);
    }
    out
}

/// A `u64` taken off the front, with what follows.
pub open spec fn take_u64_spec(b: Seq<u8>) -> Option<(u64, Seq<u8>)> {
    if b.len() >= 8 {
        Some((spec_u64_from_le_bytes(b.take(8)), b.skip(8)))
    } else {
        None
    }
}

/// A stored string taken off the front, with what follows.
pub open spec fn take_str_spec(b: Seq<u8>) -> Option<(Seq<char>, Seq<u8>)> {
    match take_u64_spec(b) {
        Some((n, rest)) => {
            if n <= rest.len() && valid_utf8(rest.take(n as int)) {
                Some((decode_utf8(rest.take(n as int)), rest.skip(n as int)))
            } else {
                None
            }
        },
        None => None,
    }
}

/// A stored entry taken off the front, with what follows.
pub open spec fn take_entry_spec(b: Seq<u8>) -> Option<
    ((Seq<char>, (Seq<char>, u64)), Seq<u8>),
> {
    match take_str_spec(b) {
        Some((p, r1)) => match take_str_spec(r1) {
            Some((c, r2)) => match take_u64_spec(r2) {
                Some((lm, r3)) => Some(((p, (c, lm)), r3)),
                None => None,
            },
            None => None,
        },
        None => None,
    }
}

/// `n` stored entries taken off the front, with what follows.
pub open spec fn take_entries_spec(b: Seq<u8>, n: nat) -> Option<
    (Seq<(Seq<char>, (Seq<char>, u64))>, Seq<u8>),
>
    decreases n,
{
    if n == 0 {
        Some((Seq::empty(), b))
    } else {
        match take_entry_spec(b) {
            Some((e, r)) => match take_entries_spec(r, (n - 1) as nat) {
                Some((es, r2)) => Some((seq![e] + es, r2)),
                None => None,
            },
            None => None,
        }
    }
}

/// What [`decode_state`] accepts: a count, that many entries, nothing after
/// them, and no path twice.
pub open spec fn decode_state_spec(b: Seq<u8>) -> Option<Seq<(Seq<char>, (Seq<char>, u64))>> {
    match take_u64_spec(b) {
        Some((n, rest)) => match take_entries_spec(rest, n as nat) {
            Some((es, r2)) => {
                if r2.len() == 0 && kv_uniq(es) {
                    Some(es)
                } else {
                    None
                }
            },
            None => None,
        },
        None => None,
    }
}

/// Relies on `String::from_utf8`: accepts exactly the valid UTF-8 byte
/// sequences and yields the characters they encode.
#[verifier::external_body]
fn bytes_to_string(v: Vec<u8>) -> (r: Option<String>)
    ensures
        r is Some <==> valid_utf8(v@),
        r matches Some(s) ==> s@ == decode_utf8(v@),
{
    match String::from_utf8(v) {
        Ok(s) => Some(s),
        Err(_) => None,
    }
}

fn read_u64(bytes: &[u8], pos: usize) -> (r: Option<(u64, usize)>)
    requires
        pos <= bytes@.len(),
    ensures
        match r {
            Some(t) => take_u64_spec(bytes@.skip(pos as int)) == Some(
                (t.0, bytes@.skip(t.1 as int)),
            ) && t.1 == pos + 8 && t.1 <= bytes@.len(),
            None => take_u64_spec(bytes@.skip(pos as int)) is None,
        },
{
    let n = bytes.len();
    if n - pos >= 8 {
        let s = slice_subrange(bytes, pos, pos + 8);
        proof {
            assert(s@ =~= bytes@.skip(pos as int).take(8));
        }
        let v = u64_from_le_bytes(s);
        proof {
            assert(bytes@.skip(pos as int).skip(8) =~= bytes@.skip(pos as int + 8));
        }
        Some((v, pos + 8))
    } else {
        None
    }
}

fn read_str(bytes: &[u8], pos: usize) -> (r: Option<(String, usize)>)
    requires
        pos <= bytes@.len(),
    ensures
        match r {
            Some(t) => take_str_spec(bytes@.skip(pos as int)) == Some(
                (t.0@, bytes@.skip(t.1 as int)),
            ) && pos <= t.1 <= bytes@.len(),
            None => take_str_spec(bytes@.skip(pos as int)) is None,
        },
{
    match read_u64(bytes, pos) {
        None => None,
        Some((len, p1)) => {
            let n = bytes.len();
            if len <= (n - p1) as u64 {
                let nl = len as usize;
                let raw = slice_subrange(bytes, p1, p1 + nl);
                proof {
                    assert(raw@ =~= bytes@.skip(p1 as int).take(len as int));
                }
                match bytes_to_string(slice_to_vec(raw)) {
                    Some(s) => {
                        proof {
                            assert(bytes@.skip(p1 as int).skip(len as int) =~= bytes@.skip(
                                p1 + nl,
                            ));
                        }
                        Some((s, p1 + nl))
                    },
                    None => None,
                }
            } else {
                None
            }
        },
    }
}

fn read_entry(bytes: &[u8], pos: usize) -> (r: Option<(SyncStateEntry, usize)>)
    requires
        pos <= bytes@.len(),
    ensures
        match r {
            Some(t) => take_entry_spec(bytes@.skip(pos as int)) == Some(
                ((t.0.path@, (t.0.cloud_id@, t.0.last_modified)), bytes@.skip(t.1 as int)),
            ) && pos <= t.1 <= bytes@.len(),
            None => take_entry_spec(bytes@.skip(pos as int)) is None,
        },
{
    match read_str(bytes, pos) {
        None => None,
        Some((path, p1)) => match read_str(bytes, p1) {
            None => None,
            Some((cloud_id, p2)) => match read_u64(bytes, p2) {
                None => None,
                Some((last_modified, p3)) => Some(
                    (SyncStateEntry { path, cloud_id, last_modified }, p3),
                ),
            },
        },
    }
}

/// Parses a stored record.  Returns `None` on anything [`decode_state_spec`]
/// rejects.
pub fn decode_state(bytes: &[u8]) -> (r: Option<SyncState>)
    ensures
        match r {
            Some(st) => decode_state_spec(bytes@) == Some(st@) && st.wf(),
            None => decode_state_spec(bytes@) is None,
        },
{
    proof {
        assert(bytes@.skip(0) =~= bytes@);
    }
    match read_u64(bytes, 0) {
        None => None,
        Some((cnt, pos0)) => {
            let ghost rest0 = bytes@.skip(pos0 as int);
            let mut st = SyncState::new();
            let mut pos: usize = pos0;
            let mut k: u64 = 0;
            while k < cnt
                invariant
                    k <= cnt,
                    pos0 <= pos <= bytes@.len(),
                    st.wf(),
                    take_u64_spec(bytes@) == Some((cnt, rest0)),
                    rest0 == bytes@.skip(pos0 as int),
                    take_entries_spec(rest0, cnt as nat) == (match take_entries_spec(
                        bytes@.skip(pos as int),
                        (cnt - k) as nat,
                    ) {
                        Some((es, r2)) => Some((st@ + es, r2)),
                        None => None::<(Seq<(Seq<char>, (Seq<char>, u64))>, Seq<u8>)>,
                    }),
                decreases cnt - k,
            {
                match read_entry(bytes, pos) {
                    None => {
                        return None;
                    },
                    Some((e, p2)) => {
                        let ghost ev = (e.path@, (e.cloud_id@, e.last_modified));
                        let ghost tail = bytes@.skip(p2 as int);
                        proof {
                            lemma_step_shape(bytes@.skip(pos as int), ev, tail, (cnt - k) as nat);
                        }
                        if st.get(e.path.as_str()).is_some() {
                            // A repeated path: the record is corrupt.
                            proof {
                                lemma_dup_not_uniq(st@, ev, tail, (cnt - k) as nat);
                            }
                            return None;
                        }
                        proof {
                            lemma_kv_find_none(st@, ev.0);
                            lemma_kv_upsert_absent(st@, ev.0, ev.1);
                            lemma_push_assoc(st@, ev, tail, (cnt - k) as nat);
                        }
                        st.upsert(e.path, e.cloud_id, e.last_modified);
                        pos = p2;
                        k = k + 1;
                    },
                }
            }
            // All entries read: the rest must be empty.
            proof {
                assert(take_entries_spec(bytes@.skip(pos as int), 0) == Some((
                    Seq::<(Seq<char>, (Seq<char>, u64))>::empty(),
                    bytes@.skip(pos as int),
                )));
                assert(st@ + Seq::<(Seq<char>, (Seq<char>, u64))>::empty() =~= st@);
            }
            let n = bytes.len();
            if pos != n {
                return None;
            }
            proof {
                assert(bytes@.skip(pos as int).len() == 0);
            }
            Some(st)
        },
    }
}

/// When one entry parses, the whole run of entries is that entry followed
/// by one fewer from the rest.
proof fn lemma_step_shape(
    b: Seq<u8>,
    ev: (Seq<char>, (Seq<char>, u64)),
    tail: Seq<u8>,
    n: nat,
)
    requires
        n >= 1,
        take_entry_spec(b) == Some((ev, tail)),
    ensures
        take_entries_spec(b, n) == (match take_entries_spec(tail, (n - 1) as nat) {
            Some((es, r2)) => Some((seq![ev] + es, r2)),
            None => None::<(Seq<(Seq<char>, (Seq<char>, u64))>, Seq<u8>)>,
        }),
{
}

/// A parsed prefix already holding the new entry's path can never satisfy
/// the distinct-keys check, whatever follows.
proof fn lemma_dup_not_uniq(
    acc: Seq<(Seq<char>, (Seq<char>, u64))>,
    ev: (Seq<char>, (Seq<char>, u64)),
    tail: Seq<u8>,
    n: nat,
)
    requires
        n >= 1,
        kv_find(acc, ev.0) is Some,
    ensures
        match take_entries_spec(tail, (n - 1) as nat) {
            Some((es, r2)) => !kv_uniq(acc + (seq![ev] + es)),
            None => true,
        },
{
    match take_entries_spec(tail, (n - 1) as nat) {
        Some((es, r2)) => {
            let full = acc + (seq![ev] + es);
            lemma_kv_find_some_index(acc, ev.0);
            let i = choose|i: int| 0 <= i < acc.len() && (#[trigger] acc[i]).0 == ev.0;
            assert(full[i].0 == ev.0);
            assert(full[acc.len() as int].0 == ev.0);
            if kv_uniq(full) {
                lemma_kv_uniq_pairwise(full);
                assert(false);
            }
        },
        None => {},
    }
}

/// Appending the new entry to the accumulator and prepending it to the
/// remainder meet in the middle.
proof fn lemma_push_assoc(
    acc: Seq<(Seq<char>, (Seq<char>, u64))>,
    ev: (Seq<char>, (Seq<char>, u64)),
    tail: Seq<u8>,
    n: nat,
)
    requires
        n >= 1,
    ensures
        match take_entries_spec(tail, (n - 1) as nat) {
            Some((es, r2)) => acc + (seq![ev] + es) =~= acc.push(ev) + es,
            None => true,
        },
{
}

/// A string whose stored length fits its length field.  Every string a
/// program actually holds satisfies this; only the unbounded sequences of
/// the mathematical model can exceed it.
pub open spec fn encodable_str(s: Seq<char>) -> bool {
    encode_utf8(s).len() <= u64::MAX
}

/// A record the format can represent faithfully.
pub open spec fn encodable_state(s: Seq<(Seq<char>, (Seq<char>, u64))>) -> bool {
    &&& s.len() <= u64::MAX
    &&& forall|i: int|
        0 <= i < s.len() ==> encodable_str((#[trigger] s[i]).0) && encodable_str(s[i].1.0)
}

proof fn lemma_take_u64_encode(x: u64, rest: Seq<u8>)
    ensures
        take_u64_spec(spec_u64_to_le_bytes(x) + rest) == Some((x, rest)),
{
    lemma_auto_spec_u64_to_from_le_bytes();
    let b = spec_u64_to_le_bytes(x) + rest;
    assert(b.take(8) =~= spec_u64_to_le_bytes(x));
    assert(b.skip(8) =~= rest);
}

proof fn lemma_take_str_encode(s: Seq<char>, rest: Seq<u8>)
    requires
        encodable_str(s),
    ensures
        take_str_spec(encode_str_spec(s) + rest) == Some((s, rest)),
{
    let u = encode_utf8(s);
    let n = u.len() as u64;
    assert(encode_str_spec(s) + rest =~= spec_u64_to_le_bytes(n) + (u + rest));
    lemma_take_u64_encode(n, u + rest);
    assert((u + rest).take(n as int) =~= u);
    assert((u + rest).skip(n as int) =~= rest);
    encode_utf8_valid_utf8(s);
    encode_utf8_decode_utf8(s);
}

proof fn lemma_take_entry_encode(e: (Seq<char>, (Seq<char>, u64)), rest: Seq<u8>)
    requires
        encodable_str(e.0),
        encodable_str(e.1.0),
    ensures
        take_entry_spec(encode_entry_spec(e) + rest) == Some((e, rest)),
{
    let b = encode_entry_spec(e) + rest;
    assert(b =~= encode_str_spec(e.0) + (encode_str_spec(e.1.0) + (spec_u64_to_le_bytes(e.1.1)
        + rest)));
    lemma_take_str_encode(e.0, encode_str_spec(e.1.0) + (spec_u64_to_le_bytes(e.1.1) + rest));
    lemma_take_str_encode(e.1.0, spec_u64_to_le_bytes(e.1.1) + rest);
    lemma_take_u64_encode(e.1.1, rest);
    assert(e == (e.0, (e.1.0, e.1.1)));
}

proof fn lemma_take_entries_encode(s: Seq<(Seq<char>, (Seq<char>, u64))>, rest: Seq<u8>)
    requires
        forall|i: int|
            0 <= i < s.len() ==> encodable_str((#[trigger] s[i]).0) && encodable_str(s[i].1.0),
    ensures
        take_entries_spec(encode_entries_spec(s) + rest, s.len()) == Some((s, rest)),
    decreases s.len(),
{
    if s.len() == 0 {
        assert(encode_entries_spec(s) + rest =~= rest);
        assert(take_entries_spec(rest, 0) == Some((Seq::<(Seq<char>, (Seq<char>, u64))>::empty(),
            rest)));
        assert(s =~= Seq::<(Seq<char>, (Seq<char>, u64))>::empty());
    } else {
        let t = s.drop_first();
        assert(encode_entries_spec(s) + rest =~= encode_entry_spec(s[0]) + (encode_entries_spec(t)
            + rest));
        lemma_take_entry_encode(s[0], encode_entries_spec(t) + rest);
        assert(forall|i: int| 0 <= i < t.len() ==> (#[trigger] t[i]) == s[i + 1]);
        lemma_take_entries_encode(t, rest);
        assert(seq![s[0]] + t =~= s);
    }
}

/// The persisted encoding round-trips exactly: decoding what was encoded
/// recovers the same key set and both fields of every entry, in order.
pub proof fn lemma_state_round_trip(s: Seq<(Seq<char>, (Seq<char>, u64))>)
    requires
        kv_uniq(s),
        encodable_state(s),
    ensures
        decode_state_spec(encode_state_spec(s)) == Some(s),
{
    let n = s.len() as u64;
    let body = encode_entries_spec(s);
    assert(encode_state_spec(s) =~= spec_u64_to_le_bytes(n) + body);
    lemma_take_u64_encode(n, body);
    assert(body =~= body + Seq::<u8>::empty());
    lemma_take_entries_encode(s, Seq::<u8>::empty());
}

/// Loads a stored record, treating anything corrupt or absent as the empty
/// state, so that the run falls back to a full re-evaluation.
pub fn load_state(bytes: &[u8]) -> (r: SyncState)
    ensures
        r@ == (match decode_state_spec(bytes@) {
            Some(es) => es,
            None => Seq::<(Seq<char>, (Seq<char>, u64))>::empty(),
        }),
        r.wf(),
{
    match decode_state(bytes) {
        Some(st) => st,
        None => SyncState::new(),
    }
}

} // verus!

use vstd::prelude::*;
use vstd::slice::slice_subrange;
use vstd::string::StringSliceAdditionalSpecFns;

use crate::percent::{decode_component, percent_decode_slice};
use crate::query_map::{build_query_map, group_pairs, lemma_group_pairs_values, values_under, QueryMap};

verus! {

/// The pieces of `s` between occurrences of `sep`, as `str::split` gives
/// them: one piece more than there are separators, empty pieces kept.
pub open spec fn split_on(s: Seq<u8>, sep: u8) -> Seq<Seq<u8>>
    decreases s.len(),
{
    if s.len() == 0 {
        seq![Seq::empty()]
    } else {
        let r = split_on(s.drop_last(), sep);
        if s.last() == sep {
            r.push(Seq::empty())
        } else {
            r.update(r.len() - 1, r.last().push(s.last()))
        }
    }
}

/// The parts of `s` before and after its first `sep`, if it has one, as
/// `str::split_once` gives them.
pub open spec fn split_once(s: Seq<u8>, sep: u8) -> Option<(Seq<u8>, Seq<u8>)>
    decreases s.len(),
{
    if s.len() == 0 {
        None
    } else if s[0] == sep {
        Some((Seq::empty(), s.drop_first()))
    } else {
        match split_once(s.drop_first(), sep) {
            Some(kv) => Some((seq![s[0]] + kv.0, kv.1)),
            None => None,
        }
    }
}

/// The decoded key and value of one non-empty `&`-separated piece of a
/// query: split at its first `=`; a piece without `=` is a key with the
/// empty value.
pub open spec fn piece_pair(piece: Seq<u8>) -> (Seq<char>, Seq<char>) {
    match split_once(piece, 61u8) {
        Some(kv) => (decode_component(kv.0), decode_component(kv.1)),
        None => (decode_component(piece), Seq::empty()),
    }
}

/// The decoded pairs of the pieces, empty pieces skipped.
pub open spec fn piece_pairs(pieces: Seq<Seq<u8>>) -> Seq<(Seq<char>, Seq<char>)>
    decreases pieces.len(),
{
    if pieces.len() == 0 {
        Seq::empty()
    } else if pieces.last().len() == 0 {
        piece_pairs(pieces.drop_last())
    } else {
        piece_pairs(pieces.drop_last()).push(piece_pair(pieces.last()))
    }
}

/// The decoded key/value pairs of a percent-encoded query, in order.
pub open spec fn query_pairs(query: Seq<u8>) -> Seq<(Seq<char>, Seq<char>)> {
    piece_pairs(split_on(query, 38u8))
}

/// The map of a percent-encoded query: each key with its values in order.
pub open spec fn query_map_of(query: Seq<u8>) -> Map<Seq<char>, Seq<Seq<char>>> {
    group_pairs(query_pairs(query))
}

proof fn lemma_split_once_at(s: Seq<u8>, sep: u8, j: int)
    requires
        0 <= j < s.len(),
        s[j] == sep,
        forall|m: int| 0 <= m < j ==> s[m] != sep,
    ensures
        split_once(s, sep) == Some((s.take(j), s.skip(j + 1))),
    decreases j,
{
    if j == 0 {
        assert(s.take(0) =~= Seq::<u8>::empty());
        assert(s.skip(1) =~= s.drop_first());
    } else {
        lemma_split_once_at(s.drop_first(), sep, j - 1);
        assert(seq![s[0]] + s.drop_first().take(j - 1) =~= s.take(j));
        assert(s.drop_first().skip(j) =~= s.skip(j + 1));
    }
}

proof fn lemma_split_once_none(s: Seq<u8>, sep: u8)
    requires
        forall|m: int| 0 <= m < s.len() ==> s[m] != sep,
    ensures
        split_once(s, sep) is None,
    decreases s.len(),
{
    if s.len() > 0 {
        lemma_split_once_none(s.drop_first(), sep);
    }
}

proof fn lemma_split_on_nonempty(s: Seq<u8>, sep: u8)
    ensures
        split_on(s, sep).len() >= 1,
    decreases s.len(),
{
    if s.len() > 0 {
        lemma_split_on_nonempty(s.drop_last(), sep);
    }
}

/// Splitting `a`, a separator, then `b` gives the pieces of `a` followed by
/// those of `b`.
pub proof fn lemma_split_on_concat(a: Seq<u8>, b: Seq<u8>, sep: u8)
    ensures
        split_on(a + seq![sep] + b, sep) == split_on(a, sep) + split_on(b, sep),
    decreases b.len(),
{
    let s = a + seq![sep] + b;
    if b.len() == 0 {
        assert(s.drop_last() =~= a);
        assert(split_on(b, sep) =~= seq![Seq::<u8>::empty()]);
        assert(split_on(a, sep).push(Seq::empty()) =~= split_on(a, sep) + split_on(b, sep));
    } else {
        assert(s.drop_last() =~= a + seq![sep] + b.drop_last());
        lemma_split_on_concat(a, b.drop_last(), sep);
        lemma_split_on_nonempty(b.drop_last(), sep);
        let ra = split_on(a, sep);
        let rb = split_on(b.drop_last(), sep);
        if b.last() == sep {
            assert((ra + rb).push(Seq::empty()) =~= ra + rb.push(Seq::empty()));
        } else {
            assert((ra + rb).update((ra + rb).len() - 1, (ra + rb).last().push(b.last())) =~= ra
                + rb.update(rb.len() - 1, rb.last().push(b.last())));
        }
    }
}

/// The decoded pairs of two lists of pieces, one after the other.
pub proof fn lemma_piece_pairs_concat(p: Seq<Seq<u8>>, q: Seq<Seq<u8>>)
    ensures
        piece_pairs(p + q) == piece_pairs(p) + piece_pairs(q),
    decreases q.len(),
{
    if q.len() == 0 {
        assert(p + q =~= p);
        assert(piece_pairs(p) + piece_pairs(q) =~= piece_pairs(p));
    } else {
        assert((p + q).drop_last() =~= p + q.drop_last());
        lemma_piece_pairs_concat(p, q.drop_last());
        if q.last().len() != 0 {
            assert((piece_pairs(p) + piece_pairs(q.drop_last())).push(piece_pair(q.last()))
                =~= piece_pairs(p) + piece_pairs(q.drop_last()).push(piece_pair(q.last())));
        }
    }
}

/// Joining two queries with `&` joins their pairs: the pairs of `a&b` are
/// those of `a` followed by those of `b`.
pub proof fn lemma_query_pairs_concat(a: Seq<u8>, b: Seq<u8>)
    ensures
        query_pairs(a + seq![38u8] + b) == query_pairs(a) + query_pairs(b),
{
    lemma_split_on_concat(a, b, 38u8);
    lemma_piece_pairs_concat(split_on(a, 38u8), split_on(b, 38u8));
}

proof fn lemma_split_on_no_sep(s: Seq<u8>, sep: u8)
    requires
        forall|m: int| 0 <= m < s.len() ==> s[m] != sep,
    ensures
        split_on(s, sep) == seq![s],
    decreases s.len(),
{
    if s.len() > 0 {
        lemma_split_on_no_sep(s.drop_last(), sep);
        assert(s.drop_last().push(s.last()) =~= s);
    } else {
        assert(s =~= Seq::<u8>::empty());
    }
}

/// A query made of one piece `k=v`, with no `&` in it and no `=` in `k`,
/// maps the decoded `k` to the one decoded value `v`, also when `v` is empty
/// (the `=` belongs to neither).
pub proof fn lemma_query_key_value(k: Seq<u8>, v: Seq<u8>)
    requires
        forall|m: int| 0 <= m < k.len() ==> k[m] != 38u8 && k[m] != 61u8,
        forall|m: int| 0 <= m < v.len() ==> v[m] != 38u8,
    ensures
        query_map_of(k + seq![61u8] + v) == Map::<Seq<char>, Seq<Seq<char>>>::empty().insert(
            decode_component(k),
            seq![decode_component(v)],
        ),
{
    let s = k + seq![61u8] + v;
    assert forall|m: int| 0 <= m < s.len() implies s[m] != 38u8 by {
        if m < k.len() {
        } else if m > k.len() {
            assert(s[m] == v[m - k.len() - 1]);
        }
    }
    lemma_split_on_no_sep(s, 38u8);
    lemma_split_once_at(s, 61u8, k.len() as int);
    assert(s.take(k.len() as int) =~= k);
    assert(s.skip(k.len() as int + 1) =~= v);
    assert(seq![s].drop_last() =~= Seq::<Seq<u8>>::empty());
    assert(s.len() > 0);
    assert(piece_pair(s) == (decode_component(k), decode_component(v)));
    assert(piece_pairs(seq![s]) == piece_pairs(seq![s].drop_last()).push(piece_pair(s)));
    assert(piece_pairs(Seq::<Seq<u8>>::empty()) == Seq::<(Seq<char>, Seq<char>)>::empty());
    assert(query_pairs(s) =~= seq![(decode_component(k), decode_component(v))]);
    let p = query_pairs(s);
    assert(p.drop_last() =~= Seq::<(Seq<char>, Seq<char>)>::empty());
    assert(group_pairs(p.drop_last()) == Map::<Seq<char>, Seq<Seq<char>>>::empty());
    assert(group_pairs(p) =~= Map::<Seq<char>, Seq<Seq<char>>>::empty().insert(
        decode_component(k),
        seq![decode_component(v)],
    ));
}

/// A query made of one non-empty piece with neither `&` nor `=` maps that
/// piece, decoded, to the empty value.
pub proof fn lemma_query_key_only(k: Seq<u8>)
    requires
        k.len() > 0,
        forall|m: int| 0 <= m < k.len() ==> k[m] != 38u8 && k[m] != 61u8,
    ensures
        query_map_of(k) == Map::<Seq<char>, Seq<Seq<char>>>::empty().insert(
            decode_component(k),
            seq![Seq::<char>::empty()],
        ),
{
    lemma_split_on_no_sep(k, 38u8);
    lemma_split_once_none(k, 61u8);
    assert(seq![k].drop_last() =~= Seq::<Seq<u8>>::empty());
    assert(piece_pairs(seq![k]) == piece_pairs(seq![k].drop_last()).push(piece_pair(k)));
    assert(piece_pairs(Seq::<Seq<u8>>::empty()) == Seq::<(Seq<char>, Seq<char>)>::empty());
    let p = query_pairs(k);
    assert(p =~= seq![(decode_component(k), Seq::<char>::empty())]);
    assert(p.drop_last() =~= Seq::<(Seq<char>, Seq<char>)>::empty());
    assert(group_pairs(p.drop_last()) == Map::<Seq<char>, Seq<Seq<char>>>::empty());
    assert(group_pairs(p) =~= Map::<Seq<char>, Seq<Seq<char>>>::empty().insert(
        decode_component(k),
        seq![Seq::<char>::empty()],
    ));
}

/// Decodes one non-empty piece of a query into its key and value.
fn decode_piece(piece: &[u8]) -> (res: (String, String))
    requires
        piece@.len() > 0,
    ensures
        (res.0@, res.1@) == piece_pair(piece@),
{
    let mut j: usize = 0;
    while j < piece.len() && piece[j] != 61u8
        invariant
            j <= piece@.len(),
            forall|m: int| 0 <= m < j ==> piece@[m] != 61u8,
        decreases piece@.len() - j,
    {
        j += 1;
    }
    if j < piece.len() {
        proof {
            lemma_split_once_at(piece@, 61u8, j as int);
        }
        let key = percent_decode_slice(slice_subrange(piece, 0, j));
        let value = percent_decode_slice(slice_subrange(piece, j + 1, piece.len()));
        assert(piece@.subrange(0, j as int) =~= piece@.take(j as int));
        assert(piece@.subrange(j + 1, piece@.len() as int) =~= piece@.skip(j + 1));
        (key, value)
    } else {
        proof {
            lemma_split_once_none(piece@, 61u8);
        }
        (percent_decode_slice(piece), String::new())
    }
}

/// Parses a percent-encoded query (`key=value&key2&...`) into a map from
/// each decoded key to its decoded values in order of appearance. Empty
/// pieces are skipped, a piece without `=` gives its key the empty value,
/// and the keys come sorted.
pub fn parse_query_map(query: &str) -> (res: QueryMap)
    ensures
        res.wf(),
        res.as_map() == query_map_of(query.spec_bytes()),
        forall|k: Seq<char>|
            #[trigger] res.as_map().contains_key(k) ==> res.as_map()[k] == values_under(
                query_pairs(query.spec_bytes()),
                k,
            ),
        forall|k: Seq<char>|
            !(#[trigger] res.as_map().contains_key(k)) ==> values_under(
                query_pairs(query.spec_bytes()),
                k,
            ).len() == 0,
{
    let bytes = query.as_bytes();
    let ghost b = bytes@;
    let mut pairs: Vec<(String, String)> = Vec::new();
    let mut start: usize = 0;
    let mut i: usize = 0;
    let ghost mut closed: Seq<Seq<u8>> = Seq::empty();
    assert(b.take(0) =~= Seq::<u8>::empty());
    assert(b.subrange(0, 0) =~= Seq::<u8>::empty());
    while i < bytes.len()
        invariant
            b == bytes@,
            start <= i <= b.len(),
            split_on(b.take(i as int), 38u8) == closed.push(b.subrange(start as int, i as int)),
            pairs@.map_values(|q: (String, String)| (q.0@, q.1@)) == piece_pairs(closed),
        decreases b.len() - i,
    {
        assert(b.take(i + 1).drop_last() =~= b.take(i as int));
        if bytes[i] == 38u8 {
            let piece = slice_subrange(bytes, start, i);
            if piece.len() > 0 {
                let pair = decode_piece(piece);
                pairs.push(pair);
            }
            proof {
                let ghost seg = b.subrange(start as int, i as int);
                assert(closed.push(seg).drop_last() =~= closed);
                closed = closed.push(seg);
                assert(b.subrange(i + 1, i + 1) =~= Seq::<u8>::empty());
            }
            start = i + 1;
        } else {
            assert(b.subrange(start as int, i + 1) =~= b.subrange(start as int, i as int).push(b[i as int]));
            assert(closed.push(b.subrange(start as int, i as int)).update(
                closed.len() as int,
                b.subrange(start as int, i + 1),
            ) =~= closed.push(b.subrange(start as int, i + 1)));
        }
        i += 1;
        proof {
            assert(pairs@.map_values(|q: (String, String)| (q.0@, q.1@)) =~= piece_pairs(closed));
        }
    }
    assert(b.take(b.len() as int) =~= b);
    let piece = slice_subrange(bytes, start, bytes.len());
    if piece.len() > 0 {
        let pair = decode_piece(piece);
        pairs.push(pair);
    }
    proof {
        let seg = b.subrange(start as int, b.len() as int);
        assert(closed.push(seg).drop_last() =~= closed);
        assert(pairs@.map_values(|q: (String, String)| (q.0@, q.1@)) =~= query_pairs(b));
    }
    let res = build_query_map(&pairs);
    proof {
        assert forall|k: Seq<char>| #[trigger] res.as_map().contains_key(k) || !res.as_map().contains_key(k)
            implies (res.as_map().contains_key(k) ==> res.as_map()[k] == values_under(query_pairs(b), k))
            && (!res.as_map().contains_key(k) ==> values_under(query_pairs(b), k).len() == 0) by {
            lemma_group_pairs_values(query_pairs(b), k);
        }
    }
    res
}

} // verus!

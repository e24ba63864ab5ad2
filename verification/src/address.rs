//! Deterministic record addressing.
//!
//! Every record's location in the store is a pure function of stable
//! identifiers: an ordered list of byte-sequence seeds is framed (each seed
//! prefixed with its length in eight little-endian bytes) and concatenated.
//! Framing makes the derivation injective, so distinct seed lists never
//! collide. Three seed shapes are used: a poll is addressed by its
//! identifier alone, a candidate by the poll identifier and the candidate
//! name, and a vote receipt by the poll identifier and the voter identity.

use vstd::prelude::*;

use crate::bytes::copy_bytes;

verus! {

/// The eight little-endian bytes of a 64-bit identifier.
pub open spec fn u64_le(x: u64) -> Seq<u8> {
    seq![
        (x & 0xff) as u8,
        ((x >> 8) & 0xff) as u8,
        ((x >> 16) & 0xff) as u8,
        ((x >> 24) & 0xff) as u8,
        ((x >> 32) & 0xff) as u8,
        ((x >> 40) & 0xff) as u8,
        ((x >> 48) & 0xff) as u8,
        ((x >> 56) & 0xff) as u8,
    ]
}

/// Two identifiers with the same little-endian bytes are the same identifier.
proof fn lemma_u64_le_injective(x: u64, y: u64)
    requires
        u64_le(x) == u64_le(y),
    ensures
        x == y,
{
    assert((x & 0xff) as u8 == (y & 0xff) as u8);
    assert(((x >> 8) & 0xff) as u8 == ((y >> 8) & 0xff) as u8);
    assert(((x >> 16) & 0xff) as u8 == ((y >> 16) & 0xff) as u8);
    assert(((x >> 24) & 0xff) as u8 == ((y >> 24) & 0xff) as u8);
    assert(((x >> 32) & 0xff) as u8 == ((y >> 32) & 0xff) as u8);
    assert(((x >> 40) & 0xff) as u8 == ((y >> 40) & 0xff) as u8);
    assert(((x >> 48) & 0xff) as u8 == ((y >> 48) & 0xff) as u8);
    assert(((x >> 56) & 0xff) as u8 == ((y >> 56) & 0xff) as u8);
    assert((
        (x & 0xff) as u8 == (y & 0xff) as u8
        && ((x >> 8) & 0xff) as u8 == ((y >> 8) & 0xff) as u8
        && ((x >> 16) & 0xff) as u8 == ((y >> 16) & 0xff) as u8
        && ((x >> 24) & 0xff) as u8 == ((y >> 24) & 0xff) as u8
        && ((x >> 32) & 0xff) as u8 == ((y >> 32) & 0xff) as u8
        && ((x >> 40) & 0xff) as u8 == ((y >> 40) & 0xff) as u8
        && ((x >> 48) & 0xff) as u8 == ((y >> 48) & 0xff) as u8
        && ((x >> 56) & 0xff) as u8 == ((y >> 56) & 0xff) as u8
    ) ==> x == y) by (bit_vector);
}

/// Computes the eight little-endian bytes of a 64-bit identifier.
pub fn u64_le_bytes(x: u64) -> (r: Vec<u8>)
    ensures
        r@ == u64_le(x),
{
    proof {
        assert(x & 0xff < 256 && (x >> 8) & 0xff < 256 && (x >> 16) & 0xff < 256
            && (x >> 24) & 0xff < 256 && (x >> 32) & 0xff < 256 && (x >> 40) & 0xff < 256
            && (x >> 48) & 0xff < 256 && (x >> 56) & 0xff < 256) by (bit_vector);
    }
    let mut out: Vec<u8> = Vec::new();
    out.push((x & 0xff) as u8);
    out.push(((x >> 8) & 0xff) as u8);
    out.push(((x >> 16) & 0xff) as u8);
    out.push(((x >> 24) & 0xff) as u8);
    out.push(((x >> 32) & 0xff) as u8);
    out.push(((x >> 40) & 0xff) as u8);
    out.push(((x >> 48) & 0xff) as u8);
    out.push(((x >> 56) & 0xff) as u8);
    proof {
        assert(out@ =~= u64_le(x));
    }
    out
}

/// One seed framed for concatenation: its length in eight little-endian
/// bytes, then its bytes. The length prefix keeps seed boundaries
/// unambiguous in the concatenation.
pub open spec fn framed_seed(s: Seq<u8>) -> Seq<u8> {
    u64_le(s.len() as u64) + s
}

/// The address derived from an ordered list of seeds: the concatenation of
/// the framed seeds.
pub open spec fn address_of(seeds: Seq<Seq<u8>>) -> Seq<u8>
    decreases seeds.len(),
{
    if seeds.len() == 0 {
        Seq::empty()
    } else {
        framed_seed(seeds[0]) + address_of(seeds.drop_first())
    }
}

/// Appending a seed appends its framed bytes to the derived address.
proof fn lemma_address_of_push(seeds: Seq<Seq<u8>>, x: Seq<u8>)
    ensures
        address_of(seeds.push(x)) == address_of(seeds) + framed_seed(x),
    decreases seeds.len(),
{
    assert(address_of(Seq::<Seq<u8>>::empty()) == Seq::<u8>::empty());
    if seeds.len() == 0 {
        assert(seeds.push(x).drop_first() =~= Seq::<Seq<u8>>::empty());
        assert(seeds.push(x)[0] == x);
        assert(framed_seed(x) + Seq::<u8>::empty() =~= framed_seed(x));
        assert(Seq::<u8>::empty() + framed_seed(x) =~= framed_seed(x));
    } else {
        lemma_address_of_push(seeds.drop_first(), x);
        assert(seeds.push(x).drop_first() =~= seeds.drop_first().push(x));
        assert(seeds.push(x)[0] == seeds[0]);
        assert((framed_seed(seeds[0]) + address_of(seeds.drop_first())) + framed_seed(x)
            =~= framed_seed(seeds[0]) + (address_of(seeds.drop_first()) + framed_seed(x)));
    }
}

/// Derives the storage address for an ordered list of seeds.
pub fn derive_address(seeds: &Vec<Vec<u8>>) -> (r: Vec<u8>)
    ensures
        r@ == address_of(seeds.deep_view()),
{
    let mut out: Vec<u8> = Vec::new();
    let mut i: usize = 0;
    while i < seeds.len()
        invariant
            i <= seeds.len(),
            out@ == address_of(seeds.deep_view().take(i as int)),
        decreases seeds.len() - i,
    {
        let len_bytes = u64_le_bytes(seeds[i].len() as u64);
        let mut j: usize = 0;
        while j < len_bytes.len()
            invariant
                j <= len_bytes.len(),
                out@ == address_of(seeds.deep_view().take(i as int))
                    + len_bytes@.subrange(0, j as int),
            decreases len_bytes.len() - j,
        {
            out.push(len_bytes[j]);
            proof {
                assert(out@ =~= address_of(seeds.deep_view().take(i as int))
                    + len_bytes@.subrange(0, j + 1));
            }
            j += 1;
        }
        proof {
            assert(len_bytes@.subrange(0, len_bytes@.len() as int) =~= len_bytes@);
        }
        let s = &seeds[i];
        let mut k: usize = 0;
        while k < s.len()
            invariant
                k <= s.len(),
                out@ == address_of(seeds.deep_view().take(i as int)) + len_bytes@
                    + s@.subrange(0, k as int),
            decreases s.len() - k,
        {
            out.push(s[k]);
            proof {
                assert(out@ =~= address_of(seeds.deep_view().take(i as int)) + len_bytes@
                    + s@.subrange(0, k + 1));
            }
            k += 1;
        }
        proof {
            let sv = seeds.deep_view();
            assert(s@.subrange(0, s@.len() as int) =~= s@);
            lemma_address_of_push(sv.take(i as int), sv[i as int]);
            assert(sv.take(i as int).push(sv[i as int]) =~= sv.take(i + 1));
            assert(sv[i as int] == seeds@[i as int]@);
            assert(framed_seed(sv[i as int]) =~= len_bytes@ + s@);
            assert(out@ =~= address_of(sv.take(i + 1)));
        }
        i += 1;
    }
    proof {
        assert(seeds.deep_view().take(seeds.deep_view().len() as int) =~= seeds.deep_view());
    }
    out
}

/// The address of a poll record: derived from the poll identifier alone.
pub open spec fn poll_address_spec(poll_id: u64) -> Seq<u8> {
    address_of(seq![u64_le(poll_id)])
}

/// The address of a candidate record: derived from the poll identifier and
/// the candidate name.
pub open spec fn candidate_address_spec(poll_id: u64, name: Seq<u8>) -> Seq<u8> {
    address_of(seq![u64_le(poll_id), name])
}

/// The address of a vote receipt: derived from the poll identifier and the
/// voter identity.
pub open spec fn receipt_address_spec(poll_id: u64, voter: Seq<u8>) -> Seq<u8> {
    address_of(seq![u64_le(poll_id), voter])
}

/// Computes the address of a poll record.
pub fn poll_address(poll_id: u64) -> (r: Vec<u8>)
    ensures
        r@ == poll_address_spec(poll_id),
{
    let mut seeds: Vec<Vec<u8>> = Vec::new();
    seeds.push(u64_le_bytes(poll_id));
    let r = derive_address(&seeds);
    proof {
        assert(seeds.deep_view() =~~= seq![u64_le(poll_id)]);
    }
    r
}

/// Computes the address of a candidate record.
pub fn candidate_address(poll_id: u64, name: &Vec<u8>) -> (r: Vec<u8>)
    ensures
        r@ == candidate_address_spec(poll_id, name@),
{
    let mut seeds: Vec<Vec<u8>> = Vec::new();
    seeds.push(u64_le_bytes(poll_id));
    seeds.push(copy_bytes(name));
    let r = derive_address(&seeds);
    proof {
        assert(seeds.deep_view() =~~= seq![u64_le(poll_id), name@]);
    }
    r
}

/// Computes the address of a vote receipt.
pub fn receipt_address(poll_id: u64, voter: &Vec<u8>) -> (r: Vec<u8>)
    ensures
        r@ == receipt_address_spec(poll_id, voter@),
{
    let mut seeds: Vec<Vec<u8>> = Vec::new();
    seeds.push(u64_le_bytes(poll_id));
    seeds.push(copy_bytes(voter));
    let r = derive_address(&seeds);
    proof {
        assert(seeds.deep_view() =~~= seq![u64_le(poll_id), voter@]);
    }
    r
}

/// A single-seed address laid out flat.
proof fn lemma_one_seed_flat(i: u64)
    ensures
        address_of(seq![u64_le(i)]) == u64_le(8) + u64_le(i),
        address_of(seq![u64_le(i)]).len() == 16,
{
    let s = seq![u64_le(i)];
    assert(address_of(Seq::<Seq<u8>>::empty()) == Seq::<u8>::empty());
    assert(s.drop_first() =~= Seq::<Seq<u8>>::empty());
    assert(address_of(s) == framed_seed(u64_le(i)) + address_of(s.drop_first()));
    assert(framed_seed(u64_le(i)) + Seq::<u8>::empty() =~= framed_seed(u64_le(i)));
    assert(u64_le(i).len() == 8);
    assert(address_of(s) =~= u64_le(8) + u64_le(i));
}

/// A two-seed address laid out flat.
proof fn lemma_two_seed_flat(i: u64, a: Seq<u8>)
    requires
        a.len() <= u64::MAX,
    ensures
        address_of(seq![u64_le(i), a]) == u64_le(8) + u64_le(i) + u64_le(a.len() as u64) + a,
        address_of(seq![u64_le(i), a]).len() == 24 + a.len(),
{
    let s = seq![u64_le(i), a];
    assert(address_of(Seq::<Seq<u8>>::empty()) == Seq::<u8>::empty());
    assert(s.drop_first() =~= seq![a]);
    assert(seq![a].drop_first() =~= Seq::<Seq<u8>>::empty());
    assert(address_of(seq![a]) == framed_seed(a) + address_of(seq![a].drop_first()));
    assert(framed_seed(a) + Seq::<u8>::empty() =~= framed_seed(a));
    assert(address_of(seq![a]) =~= framed_seed(a));
    assert(address_of(s) == framed_seed(u64_le(i)) + address_of(s.drop_first()));
    assert(u64_le(i).len() == 8);
    assert(address_of(s) =~= u64_le(8) + u64_le(i) + u64_le(a.len() as u64) + a);
}

/// The address derivation is injective: distinct seed lists never derive
/// the same address, as long as each seed fits in a machine byte vector.
/// Together with the derivation being a pure function, this is the whole
/// contract of the addressing layer.
pub proof fn lemma_address_of_injective(s1: Seq<Seq<u8>>, s2: Seq<Seq<u8>>)
    requires
        forall|i: int| 0 <= i < s1.len() ==> (#[trigger] s1[i]).len() <= u64::MAX,
        forall|i: int| 0 <= i < s2.len() ==> (#[trigger] s2[i]).len() <= u64::MAX,
        address_of(s1) == address_of(s2),
    ensures
        s1 == s2,
    decreases s1.len(),
{
    if s1.len() == 0 && s2.len() == 0 {
        assert(s1 =~= s2);
    } else if s1.len() == 0 {
        assert(address_of(s2).len() >= 8);
        assert(false);
    } else if s2.len() == 0 {
        assert(address_of(s1).len() >= 8);
        assert(false);
    } else {
        let h1 = s1[0];
        let h2 = s2[0];
        let t1 = s1.drop_first();
        let t2 = s2.drop_first();
        let x = address_of(s1);
        assert(x == framed_seed(h1) + address_of(t1));
        assert(x == framed_seed(h2) + address_of(t2));
        assert forall|k: int| 0 <= k < 8 implies #[trigger] u64_le(h1.len() as u64)[k] == u64_le(
            h2.len() as u64,
        )[k] by {
            assert(x[k] == (framed_seed(h1) + address_of(t1))[k]);
            assert(x[k] == (framed_seed(h2) + address_of(t2))[k]);
        }
        assert(u64_le(h1.len() as u64) =~= u64_le(h2.len() as u64));
        lemma_u64_le_injective(h1.len() as u64, h2.len() as u64);
        assert(h1.len() == h2.len());
        assert forall|k: int| 0 <= k < h1.len() implies h1[k] == h2[k] by {
            assert(x[8 + k] == h1[k]);
            assert(x[8 + k] == h2[k]);
        }
        assert(h1 =~= h2);
        assert(address_of(t1).len() == address_of(t2).len());
        assert forall|k: int| 0 <= k < address_of(t1).len() implies address_of(t1)[k]
            == address_of(t2)[k] by {
            assert(x[8 + h1.len() + k] == address_of(t1)[k]);
            assert(x[8 + h2.len() + k] == address_of(t2)[k]);
        }
        assert(address_of(t1) =~= address_of(t2));
        assert forall|i: int| 0 <= i < t1.len() implies (#[trigger] t1[i]).len() <= u64::MAX by {
            assert(t1[i] == s1[i + 1]);
        }
        assert forall|i: int| 0 <= i < t2.len() implies (#[trigger] t2[i]).len() <= u64::MAX by {
            assert(t2[i] == s2[i + 1]);
        }
        lemma_address_of_injective(t1, t2);
        assert(s1.len() == s2.len());
        assert forall|i: int| 0 <= i < s1.len() implies s1[i] == s2[i] by {
            if i > 0 {
                assert(t1[i - 1] == s1[i]);
                assert(t2[i - 1] == s2[i]);
            }
        }
        assert(s1 =~= s2);
    }
}

/// A poll address never collides with a candidate or receipt address: the
/// former is sixteen bytes, the latter at least twenty-four.
pub proof fn lemma_poll_pair_distinct(i: u64, j: u64, b: Seq<u8>)
    requires
        b.len() <= u64::MAX,
    ensures
        poll_address_spec(i) != address_of(seq![u64_le(j), b]),
{
    lemma_one_seed_flat(i);
    lemma_two_seed_flat(j, b);
}

} // verus!

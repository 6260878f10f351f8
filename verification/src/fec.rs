//! Proactive forward error correction: recovery shards that let a receiver
//! restore lost ones without a retransmission.
//!
//! The codec works on shards of one length that is a multiple of 64 bytes, so
//! shards are zero-padded to that granularity; the true payload length travels
//! in the packet header.

use vstd::arithmetic::power2::pow2;
use vstd::prelude::*;
use vstd::string::StringExecFns;

use crate::text::owned;

verus! {

/// Why recovery shards could not be made or used.
#[derive(Debug)]
pub enum FecError {
    /// The codec's own error text.
    Rs(String),
    /// The codec has no code for this many shards.
    Unsupported,
}

impl FecError {
    /// The error in words.
    pub fn message(&self) -> (text: String)
        ensures
            text@ == (match self {
                FecError::Rs(why) => "reed-solomon: "@ + why@,
                FecError::Unsupported => "shard count/size unsupported by the codec"@,
            }),
    {
        match self {
            FecError::Rs(why) => owned("reed-solomon: ").concat(why.as_str()),
            FecError::Unsupported => owned("shard count/size unsupported by the codec"),
        }
    }
}

/// The contents of a list of byte vectors.
pub open spec fn shards(v: Seq<Vec<u8>>) -> Seq<Seq<u8>> {
    v.map_values(|s: Vec<u8>| s@)
}

/// The contents of a list of indexed byte vectors.
pub open spec fn indexed(v: Seq<(usize, Vec<u8>)>) -> Seq<(usize, Seq<u8>)> {
    v.map_values(|s: (usize, Vec<u8>)| (s.0, s.1@))
}

/// The shard counts that the codec has a code for: with some power of two `p`
/// up to 65536, at most `p` shards of one sort and at most `65536 - p` of the
/// other, and at least one of each.
pub open spec fn supported(original_count: int, recovery_count: int) -> bool {
    &&& original_count > 0
    &&& recovery_count > 0
    &&& exists|n: nat|
        n <= 16 && {
            ||| original_count <= 65536 - #[trigger] pow2(n) && recovery_count <= pow2(n)
            ||| original_count <= pow2(n) && recovery_count <= 65536 - pow2(n)
        }
}

/// The originals that recovery shards can be made for: as many as the codec
/// supports, all of one length, which is even and not zero.
pub open spec fn encodable(original: Seq<Seq<u8>>, recovery_count: int) -> bool {
    &&& supported(original.len() as int, recovery_count)
    &&& original[0].len() > 0
    &&& original[0].len() % 2 == 0
    &&& forall|i: int|
        0 <= i < original.len() ==> (#[trigger] original[i]).len() == original[0].len()
}

/// What `reed_solomon_simd::encode` returns for these originals: the recovery
/// shards in order, or the text of its error.
pub uninterp spec fn rs_encode(original: Seq<Seq<u8>>, recovery_count: usize) -> Result<
    Seq<Seq<u8>>,
    Seq<char>,
>;

/// What `reed_solomon_simd::decode` returns for these survivors: the restored
/// originals with their indexes in ascending order, or the text of its error.
pub uninterp spec fn rs_decode(
    original_count: usize,
    recovery_count: usize,
    original: Seq<(usize, Seq<u8>)>,
    recovery: Seq<(usize, Seq<u8>)>,
) -> Result<Seq<(usize, Seq<u8>)>, Seq<char>>;

/// Whether the pairs are members of `all` under their own indexes, none twice.
pub open spec fn drawn_from(pairs: Seq<(usize, Seq<u8>)>, all: Seq<Seq<u8>>) -> bool {
    &&& forall|i: int|
        0 <= i < pairs.len() ==> (#[trigger] pairs[i]).0 < all.len() && pairs[i].1
            == all[pairs[i].0 as int]
    &&& forall|i: int, j: int|
        0 <= i < j < pairs.len() ==> (#[trigger] pairs[i]).0 != (#[trigger] pairs[j]).0
}

/// Whether `original` and `recovery` are enough of what remains of `data` and
/// its recovery shards to restore the rest: at least as many shards as there
/// were originals.
pub open spec fn survivors(
    data: Seq<Seq<u8>>,
    recovery_count: usize,
    original: Seq<(usize, Seq<u8>)>,
    recovery: Seq<(usize, Seq<u8>)>,
) -> bool {
    &&& encodable(data, recovery_count as int)
    &&& rs_encode(data, recovery_count) is Ok
    &&& drawn_from(original, data)
    &&& drawn_from(recovery, rs_encode(data, recovery_count)->Ok_0)
    &&& original.len() + recovery.len() >= data.len()
}

/// Whether one of the pairs has this index.
pub open spec fn has_index(pairs: Seq<(usize, Seq<u8>)>, index: int) -> bool {
    exists|i: int| 0 <= i < pairs.len() && (#[trigger] pairs[i]).0 == index
}

/// Whether `restored` lists exactly the members of `data` that `original`
/// lacks, by ascending index.
pub open spec fn restores(
    restored: Seq<(usize, Seq<u8>)>,
    data: Seq<Seq<u8>>,
    original: Seq<(usize, Seq<u8>)>,
) -> bool {
    &&& drawn_from(restored, data)
    &&& forall|i: int, j: int|
        0 <= i < j < restored.len() ==> (#[trigger] restored[i]).0 < (#[trigger] restored[j]).0
    &&& forall|k: int|
        0 <= k < data.len() ==> (#[trigger] has_index(restored, k) <==> !has_index(original, k))
}

/// Whether the pairs are shards of one length with distinct indexes below
/// `count`.
pub open spec fn consistent(pairs: Seq<(usize, Seq<u8>)>, count: int, len: nat) -> bool {
    &&& forall|i: int|
        0 <= i < pairs.len() ==> (#[trigger] pairs[i]).0 < count && pairs[i].1.len() == len
    &&& forall|i: int, j: int|
        0 <= i < j < pairs.len() ==> (#[trigger] pairs[i]).0 != (#[trigger] pairs[j]).0
}

/// What can be decoded: supported counts and either all the originals alone,
/// or consistent shards of even, non-zero length, in all at least as many as
/// there were originals.
pub open spec fn decodable(
    original_count: int,
    recovery_count: int,
    original: Seq<(usize, Seq<u8>)>,
    recovery: Seq<(usize, Seq<u8>)>,
) -> bool {
    &&& supported(original_count, recovery_count)
    &&& if recovery.len() == 0 {
        original.len() == original_count
    } else {
        let len = recovery[0].1.len();
        &&& len > 0 && len % 2 == 0
        &&& consistent(original, original_count, len)
        &&& consistent(recovery, recovery_count, len)
        &&& original.len() + recovery.len() >= original_count
    }
}

/// Whether a decoder may be asked about these indexes: it adds up to 65536 to
/// each.
pub open spec fn addressable(pairs: Seq<(usize, Seq<u8>)>) -> bool {
    forall|i: int| 0 <= i < pairs.len() ==> (#[trigger] pairs[i]).0 <= usize::MAX - 65536
}

/// Calls `reed_solomon_simd::ReedSolomonEncoder::supports`, which tells
/// whether there is a code for this many originals and recovery shards.
#[verifier::external_body]
fn codec_supports(original_count: usize, recovery_count: usize) -> (yes: bool)
    ensures
        yes == supported(original_count as int, recovery_count as int),
{
    reed_solomon_simd::ReedSolomonEncoder::supports(original_count, recovery_count)
}

/// Calls `reed_solomon_simd::encode`. It succeeds on supported counts of
/// equally long shards of even, non-zero length, and then gives
/// `recovery_count` recovery shards of that length; an error is handed on as
/// its text.
#[verifier::external_body]
fn codec_encode(original: &[Vec<u8>], recovery_count: usize) -> (r: Result<Vec<Vec<u8>>, String>)
    ensures
        r is Ok <==> encodable(shards(original@), recovery_count as int),
        r is Ok ==> rs_encode(shards(original@), recovery_count) == Ok::<_, Seq<char>>(
            shards(r->Ok_0@),
        ),
        r is Err ==> rs_encode(shards(original@), recovery_count) == Err::<Seq<Seq<u8>>, _>(
            r->Err_0@,
        ),
        r is Ok ==> r->Ok_0@.len() == recovery_count,
        r is Ok ==> forall|i: int|
            0 <= i < r->Ok_0@.len() ==> (#[trigger] r->Ok_0@[i])@.len() == original@[0]@.len(),
{
    reed_solomon_simd::encode(original.len(), recovery_count, original).map_err(|e| e.to_string())
}

/// Calls `reed_solomon_simd::decode`. It succeeds exactly on what `decodable`
/// describes. Given enough survivors of shards and of
/// the recovery shards that `reed_solomon_simd::encode` made for them, it
/// succeeds and gives back exactly the missing ones, by ascending index. An
/// error is handed on as its text.
#[verifier::external_body]
fn codec_decode(
    original_count: usize,
    recovery_count: usize,
    original: &[(usize, Vec<u8>)],
    recovery: &[(usize, Vec<u8>)],
) -> (r: Result<Vec<(usize, Vec<u8>)>, String>)
    requires
        addressable(indexed(original@)),
        addressable(indexed(recovery@)),
    ensures
        r is Ok <==> decodable(
            original_count as int,
            recovery_count as int,
            indexed(original@),
            indexed(recovery@),
        ),
        r is Ok ==> rs_decode(
            original_count,
            recovery_count,
            indexed(original@),
            indexed(recovery@),
        ) == Ok::<_, Seq<char>>(indexed(r->Ok_0@)),
        r is Err ==> rs_decode(
            original_count,
            recovery_count,
            indexed(original@),
            indexed(recovery@),
        ) == Err::<Seq<(usize, Seq<u8>)>, _>(r->Err_0@),
        forall|data: Seq<Seq<u8>>|
            data.len() == original_count && #[trigger] survivors(
                data,
                recovery_count,
                indexed(original@),
                indexed(recovery@),
            ) ==> r is Ok && restores(indexed(r->Ok_0@), data, indexed(original@)),
{
    reed_solomon_simd::decode(
        original_count,
        recovery_count,
        original.iter().map(|p| (p.0, p.1.as_slice())),
        recovery.iter().map(|p| (p.0, p.1.as_slice())),
    )
    .map(|restored| restored.into_iter().collect())
    .map_err(|e| e.to_string())
}

/// Rounds a shard length up to the codec's granularity of 64 bytes.
pub fn padded_len(len: usize) -> (padded: usize)
    requires
        len + 63 <= usize::MAX,
    ensures
        padded % 64 == 0,
        len <= padded < len + 64,
{
    (len + 63) / 64 * 64
}

/// Makes `recovery_count` recovery shards for `original`. Returns them in
/// order; there are none for no originals.
pub fn encode_recovery(original: &[Vec<u8>], recovery_count: usize) -> (r: Result<
    Vec<Vec<u8>>,
    FecError,
>)
    ensures
        original@.len() == 0 || recovery_count == 0 ==> r is Ok && r->Ok_0@.len() == 0,
        original@.len() > 0 && recovery_count > 0 ==> {
            &&& r is Ok <==> encodable(shards(original@), recovery_count as int)
            &&& r is Ok ==> rs_encode(shards(original@), recovery_count) == Ok::<_, Seq<char>>(
                shards(r->Ok_0@),
            )
            &&& r is Ok ==> r->Ok_0@.len() == recovery_count
            &&& r is Ok ==> forall|i: int|
                0 <= i < r->Ok_0@.len() ==> (#[trigger] r->Ok_0@[i])@.len() == original@[0]@.len()
            &&& r is Err ==> match r->Err_0 {
                FecError::Unsupported => !supported(
                    original@.len() as int,
                    recovery_count as int,
                ),
                FecError::Rs(why) => supported(original@.len() as int, recovery_count as int)
                    && rs_encode(shards(original@), recovery_count) == Err::<Seq<Seq<u8>>, _>(
                    why@,
                ),
            }
        },
{
    if original.len() == 0 || recovery_count == 0 {
        return Ok(Vec::new());
    }
    match codec_encode(original, recovery_count) {
        Ok(recovery) => Ok(recovery),
        Err(why) => if codec_supports(original.len(), recovery_count) {
            Err(FecError::Rs(why))
        } else {
            Err(FecError::Unsupported)
        },
    }
}

/// Restores the missing originals from whatever survived. `original` and
/// `recovery` are the received shards with their indexes; the result lists
/// the restored ones.
///
/// Whenever at least as many shards arrive as there were originals, in any
/// combination, the originals that were lost come back as they were.
pub fn reconstruct(
    original_count: usize,
    recovery_count: usize,
    original: &[(usize, Vec<u8>)],
    recovery: &[(usize, Vec<u8>)],
) -> (r: Result<Vec<(usize, Vec<u8>)>, FecError>)
    requires
        addressable(indexed(original@)),
        addressable(indexed(recovery@)),
    ensures
        r is Ok <==> decodable(
            original_count as int,
            recovery_count as int,
            indexed(original@),
            indexed(recovery@),
        ),
        r is Ok ==> rs_decode(
            original_count,
            recovery_count,
            indexed(original@),
            indexed(recovery@),
        ) == Ok::<_, Seq<char>>(indexed(r->Ok_0@)),
        r is Err ==> r->Err_0 is Rs && rs_decode(
            original_count,
            recovery_count,
            indexed(original@),
            indexed(recovery@),
        ) == Err::<Seq<(usize, Seq<u8>)>, _>(r->Err_0->Rs_0@),
        forall|data: Seq<Seq<u8>>|
            data.len() == original_count && #[trigger] survivors(
                data,
                recovery_count,
                indexed(original@),
                indexed(recovery@),
            ) ==> r is Ok && restores(indexed(r->Ok_0@), data, indexed(original@)),
{
    match codec_decode(original_count, recovery_count, original, recovery) {
        Ok(restored) => Ok(restored),
        Err(why) => Err(FecError::Rs(why)),
    }
}

/// There is a code for up to 32768 shards of each sort, for none without a
/// shard of each, and for no more than 65536 in all.
pub proof fn law_codes_have_limits(original_count: int, recovery_count: int)
    ensures
        1 <= original_count <= 32_768 && 1 <= recovery_count <= 32_768 ==> supported(
            original_count,
            recovery_count,
        ),
        original_count <= 0 || recovery_count <= 0 ==> !supported(original_count, recovery_count),
        original_count + recovery_count > 65_536 ==> !supported(original_count, recovery_count),
{
    vstd::arithmetic::power2::lemma2_to64();
    assert(pow2(15) == 32_768);
}

/// What is restored is exactly what was missing, as it was: each original that
/// did not survive comes back once, under its own index, and nothing else does.
pub proof fn law_what_was_lost_comes_back(
    restored: Seq<(usize, Seq<u8>)>,
    data: Seq<Seq<u8>>,
    original: Seq<(usize, Seq<u8>)>,
    k: int,
)
    requires
        restores(restored, data, original),
        0 <= k < data.len(),
    ensures
        (forall|j: int| 0 <= j < original.len() ==> (#[trigger] original[j]).0 != k)
            ==> exists|i: int|
            0 <= i < restored.len() && (#[trigger] restored[i]).0 == k && restored[i].1 == data[k],
        (exists|j: int| 0 <= j < original.len() && (#[trigger] original[j]).0 == k)
            ==> forall|i: int| 0 <= i < restored.len() ==> (#[trigger] restored[i]).0 != k,
        forall|i: int, j: int|
            0 <= i < j < restored.len() ==> (#[trigger] restored[i]).0 < (#[trigger] restored[j]).0,
{
    if forall|j: int| 0 <= j < original.len() ==> (#[trigger] original[j]).0 != k {
        assert(!has_index(original, k));
        assert(has_index(restored, k));
        let i = choose|i: int| 0 <= i < restored.len() && (#[trigger] restored[i]).0 == k;
        assert(restored[i].1 == data[restored[i].0 as int]);
    }
    if exists|j: int| 0 <= j < original.len() && (#[trigger] original[j]).0 == k {
        assert(has_index(original, k));
        assert(!has_index(restored, k));
    }
}

/// Recovery shards can be made for as many shards as there is a code for, if
/// all are of one length, even and not zero.
pub proof fn law_shards_must_be_alike(original: Seq<Seq<u8>>, recovery_count: int, i: int)
    requires
        encodable(original, recovery_count),
        0 <= i < original.len(),
    ensures
        original[i].len() == original[0].len(),
        original[i].len() >= 2,
        original[i].len() % 2 == 0,
{
}

/// Lists of shards are seen as they are, and in their order.
pub proof fn law_shards_are_seen_as_they_are(
    v: Seq<Vec<u8>>,
    pairs: Seq<(usize, Vec<u8>)>,
    i: int,
)
    ensures
        shards(v).len() == v.len(),
        0 <= i < v.len() ==> shards(v)[i] == v[i]@,
        indexed(pairs).len() == pairs.len(),
        0 <= i < pairs.len() ==> indexed(pairs)[i] == (pairs[i].0, pairs[i].1@),
{
}

} // verus!

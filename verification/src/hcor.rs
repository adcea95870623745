//! Fingerprints of frames and the counter that tells how often each one was seen.

use std::collections::HashMap;
use vstd::prelude::*;
use vstd::std_specs::hash::*;
use vstd::string::*;

use crate::hex::{hex_of, push_hex};

verus! {

/// The MD5 digest of `data`, as `md5::compute` returns it: sixteen bytes.
pub uninterp spec fn md5_digest(data: Seq<u8>) -> Seq<u8>;

/// Equal frames have equal fingerprints: the fingerprint depends on the bytes
/// of the frame and on nothing else.
pub proof fn lemma_fingerprint_deterministic(a: Seq<u8>, b: Seq<u8>)
    requires
        a == b,
    ensures
        md5_digest(a) == md5_digest(b),
{
}

/// The sixteen bytes that an `md5::Digest` holds.
pub uninterp spec fn digest_bytes(digest: md5::Digest) -> Seq<u8>;

/// Makes `md5::Digest` known as a value that is carried through unopened.
#[verifier::external_type_specification]
#[verifier::external_body]
pub struct ExDigest(md5::Digest);

/// Calls `md5::compute`. Trusted: the bytes of the digest that comes back are
/// the MD5 digest of `packet`, the same for the same bytes on every call.
#[verifier::external_body]
fn md5_compute(packet: &[u8]) -> (digest: md5::Digest)
    ensures
        digest_bytes(digest) == md5_digest(packet@),
        digest_bytes(digest).len() == 16,
{
    md5::compute(packet)
}

/// Calls md5's `From<Digest> for [u8; 16]`. Trusted: the array that comes back
/// holds the bytes of `digest`, in order.
#[verifier::external_body]
fn digest_into_array(digest: md5::Digest) -> (bytes: [u8; 16])
    ensures
        bytes@ == digest_bytes(digest),
{
    <[u8; 16]>::from(digest)
}

/// The fingerprint of a frame: the MD5 digest of its bytes.
pub fn calc_hash(packet: &[u8]) -> (hash: [u8; 16])
    ensures
        hash@ == md5_digest(packet@),
{
    digest_into_array(md5_compute(packet))
}

/// The fingerprint of a frame as the digest value of the `md5` crate.
pub fn calc_hash_digest(packet: &[u8]) -> (digest: md5::Digest)
    ensures
        digest_bytes(digest) == md5_digest(packet@),
        digest_bytes(digest).len() == 16,
{
    md5_compute(packet)
}

/// 256 to the power `n`.
pub open spec fn pow256(n: nat) -> nat
    decreases n,
{
    if n == 0 {
        1
    } else {
        256 * pow256((n - 1) as nat)
    }
}

/// The number that the bytes of `bytes` spell, most significant byte first.
pub open spec fn key_of(bytes: Seq<u8>) -> nat
    decreases bytes.len(),
{
    if bytes.len() == 0 {
        0
    } else {
        key_of(bytes.drop_last()) * 256 + bytes.last() as nat
    }
}

proof fn lemma_pow256_grows(a: nat, b: nat)
    requires
        a <= b,
    ensures
        pow256(a) <= pow256(b),
        pow256(a) >= 1,
    decreases b,
{
    if a == 0 {
        if b > 0 {
            lemma_pow256_grows(0, (b - 1) as nat);
        }
    } else {
        lemma_pow256_grows((a - 1) as nat, (b - 1) as nat);
    }
}

proof fn lemma_pow256_sixteen()
    ensures
        pow256(16) == 0x1_0000_0000_0000_0000_0000_0000_0000_0000,
{
    reveal_with_fuel(pow256, 17);
}

/// The number that `n` bytes spell is below 256 to the power `n`.
pub proof fn lemma_key_bound(bytes: Seq<u8>)
    ensures
        key_of(bytes) < pow256(bytes.len()),
    decreases bytes.len(),
{
    if bytes.len() > 0 {
        lemma_key_bound(bytes.drop_last());
    }
}

/// Two byte strings of one length that spell the same number are equal.
pub proof fn lemma_key_injective(a: Seq<u8>, b: Seq<u8>)
    requires
        a.len() == b.len(),
        key_of(a) == key_of(b),
    ensures
        a == b,
    decreases a.len(),
{
    if a.len() > 0 {
        let (x, y) = (key_of(a.drop_last()), key_of(b.drop_last()));
        assert(x == y && a.last() == b.last()) by {
            assert(x * 256 + a.last() as nat == y * 256 + b.last() as nat);
        }
        lemma_key_injective(a.drop_last(), b.drop_last());
        assert(a =~= a.drop_last().push(a.last()));
        assert(b =~= b.drop_last().push(b.last()));
    } else {
        assert(a =~= b);
    }
}

/// The key under which a fingerprint is filed: its sixteen bytes as one number.
fn fingerprint_key(fp: &[u8; 16]) -> (key: u128)
    ensures
        key == key_of(fp@),
{
    let mut key: u128 = 0;
    let mut i: usize = 0;
    while i < 16
        invariant
            i <= 16,
            key == key_of(fp@.take(i as int)),
        decreases 16 - i,
    {
        proof {
            let before = fp@.take(i as int);
            let after = fp@.take(i + 1);
            assert(after.drop_last() =~= before);
            assert(after.last() == fp@[i as int]);
            lemma_key_bound(before);
            lemma_key_bound(after);
            lemma_pow256_grows(after.len(), 16);
            lemma_pow256_sixteen();
        }
        key = key * 256 + fp[i] as u128;
        i += 1;
    }
    proof {
        assert(fp@.take(16) =~= fp@);
    }
    key
}

/// How often `fp` was seen according to `counts`: zero where it has no entry.
pub open spec fn count_in(counts: Map<Seq<u8>, nat>, fp: Seq<u8>) -> nat {
    if counts.contains_key(fp) {
        counts[fp]
    } else {
        0
    }
}

/// The counts after one more sighting of `fp`.
pub open spec fn observed(counts: Map<Seq<u8>, nat>, fp: Seq<u8>) -> Map<Seq<u8>, nat> {
    counts.insert(fp, count_in(counts, fp) + 1)
}

/// Counts the sightings of each fingerprint. A counter is owned by whoever
/// made it; callers that share one serialise their calls around it.
pub struct DuplicateCounter {
    counts: HashMap<u128, u64>,
}

/// The counts by fingerprint that counts filed by key stand for.
spec fn filed(counts: Map<u128, u64>) -> Map<Seq<u8>, nat> {
    Map::new(
        |fp: Seq<u8>| fp.len() == 16 && counts.contains_key(key_of(fp) as u128),
        |fp: Seq<u8>| counts[key_of(fp) as u128] as nat,
    )
}

/// Filing one more sighting of `fp` under its key is one more sighting of `fp`.
proof fn lemma_filed_insert(counts: Map<u128, u64>, fp: Seq<u8>, count: u64)
    requires
        fp.len() == 16,
        count == count_in(filed(counts), fp) + 1,
    ensures
        filed(counts.insert(key_of(fp) as u128, count)) == observed(filed(counts), fp),
{
    lemma_key_bound(fp);
    lemma_pow256_sixteen();
    assert forall|other: Seq<u8>| other.len() == 16 && other != fp implies key_of(other) != key_of(
        fp,
    ) && key_of(other) as u128 == key_of(other) by {
        lemma_key_bound(other);
        if key_of(other) == key_of(fp) {
            lemma_key_injective(other, fp);
        }
    }
    assert(filed(counts.insert(key_of(fp) as u128, count)) =~= observed(filed(counts), fp));
}

impl View for DuplicateCounter {
    type V = Map<Seq<u8>, nat>;

    /// The fingerprints seen so far, each with the number of its sightings.
    closed spec fn view(&self) -> Map<Seq<u8>, nat> {
        filed(self.counts@)
    }
}

impl DuplicateCounter {
    #[verifier::type_invariant]
    spec fn counted(self) -> bool {
        &&& forall|key: u128| #[trigger]
            self.counts@.contains_key(key) ==> self.counts@[key] >= 1
        &&& filed(self.counts@).dom().finite()
    }

    /// A counter that has seen nothing.
    pub fn new() -> (counter: Self)
        ensures
            counter@ == Map::<Seq<u8>, nat>::empty(),
            counter@.dom().finite(),
    {
        broadcast use group_hash_axioms;

        let counts: HashMap<u128, u64> = HashMap::new();
        assert(filed(counts@) =~= Map::<Seq<u8>, nat>::empty());
        DuplicateCounter { counts }
    }

    /// How often `fp` has been seen: at least once where the counter holds
    /// it, never where it does not.
    pub fn count(&self, fp: &[u8; 16]) -> (count: u64)
        ensures
            count == count_in(self@, fp@),
            count >= 1 <==> self@.contains_key(fp@),
            self@.dom().finite(),
    {
        broadcast use group_hash_axioms;

        let key = fingerprint_key(fp);
        proof {
            use_type_invariant(self);
            lemma_key_bound(fp@);
            lemma_pow256_sixteen();
        }
        match self.counts.get(&key) {
            Some(seen) => *seen,
            None => 0,
        }
    }

    /// Records one sighting of `fp` and returns how often it has now been seen.
    /// The counter holds finitely many fingerprints, before and after.
    pub fn observe(&mut self, fp: &[u8; 16]) -> (count: u64)
        requires
            count_in(old(self)@, fp@) < u64::MAX,
        ensures
            final(self)@ == observed(old(self)@, fp@),
            count == count_in(old(self)@, fp@) + 1,
            old(self)@.dom().finite(),
            final(self)@.dom().finite(),
    {
        broadcast use group_hash_axioms;

        let key = fingerprint_key(fp);
        proof {
            use_type_invariant(&*self);
            lemma_key_bound(fp@);
            lemma_pow256_sixteen();
        }
        let seen: u64 = match self.counts.get(&key) {
            Some(seen) => *seen,
            None => 0,
        };
        let count: u64 = seen + 1;
        let mut counts: HashMap<u128, u64> = HashMap::new();
        proof {
            assert(filed(counts@) =~= Map::<Seq<u8>, nat>::empty());
        }
        core::mem::swap(&mut self.counts, &mut counts);
        proof {
            lemma_filed_insert(counts@, fp@, count);
        }
        counts.insert(key, count);
        core::mem::swap(&mut self.counts, &mut counts);
        count
    }
}

/// The line that reports a fingerprint seen more than once: the fingerprint
/// in lower-case hexadecimal between `hash(` and `) >= 2`.
pub open spec fn duplicate_line(fp: Seq<u8>) -> Seq<char> {
    seq!['h', 'a', 's', 'h', '('] + hex_of(fp, false) + seq![')', ' ', '>', '=', ' ', '2']
}

/// What one sighting of a fingerprint came to.
#[derive(Clone, Debug, PartialEq, Eq)]
pub struct Observation {
    /// How often the fingerprint has been seen, this sighting included.
    pub count: u64,
    /// The line to log, present exactly when the fingerprint was seen before.
    pub report: Option<String>,
}

/// The line to log for a fingerprint that has been seen `count` times: none
/// for a first sighting, the duplicate line from the second sighting on.
pub fn duplicate_report(digest: &[u8; 16], count: u64) -> (report: Option<String>)
    ensures
        report.is_some() <==> count >= 2,
        report matches Some(line) ==> line@ == duplicate_line(digest@),
{
    if count < 2 {
        return None;
    }
    proof {
        reveal_strlit("hash(");
        reveal_strlit(") >= 2");
    }
    let mut line = String::new();
    line.append("hash(");
    push_hex(&mut line, digest.as_slice(), false);
    line.append(") >= 2");
    assert(line@ =~= duplicate_line(digest@));
    Some(line)
}

/// Records one sighting of `digest` in `counter` and says what came of it: the
/// new count, and the line to log when the fingerprint is a duplicate.
pub fn add_packet_hash(counter: &mut DuplicateCounter, digest: &[u8; 16]) -> (seen: Observation)
    requires
        count_in(old(counter)@, digest@) < u64::MAX,
    ensures
        final(counter)@ == observed(old(counter)@, digest@),
        final(counter)@.dom().finite(),
        seen.count == count_in(old(counter)@, digest@) + 1,
        seen.report.is_some() <==> seen.count >= 2,
        seen.report.is_some() <==> count_in(old(counter)@, digest@) >= 1,
        seen.report matches Some(line) ==> line@ == duplicate_line(digest@),
{
    let count = counter.observe(digest);
    Observation { count, report: duplicate_report(digest, count) }
}

/// The counts after the sightings `fps`, taken in order.
pub open spec fn observed_all(counts: Map<Seq<u8>, nat>, fps: Seq<Seq<u8>>) -> Map<Seq<u8>, nat>
    decreases fps.len(),
{
    if fps.len() == 0 {
        counts
    } else {
        observed(observed_all(counts, fps.drop_last()), fps.last())
    }
}

/// How many of the sightings `fps` are sightings of `fp`.
pub open spec fn sightings(fps: Seq<Seq<u8>>, fp: Seq<u8>) -> nat
    decreases fps.len(),
{
    if fps.len() == 0 {
        0
    } else {
        sightings(fps.drop_last(), fp) + if fps.last() == fp {
            1nat
        } else {
            0nat
        }
    }
}

/// The count that sighting number `i` of `fps` returns, counting from zero.
pub open spec fn returned(counts: Map<Seq<u8>, nat>, fps: Seq<Seq<u8>>, i: int) -> nat {
    count_in(observed_all(counts, fps.take(i + 1)), fps[i])
}

/// A sighting raises the count of its own fingerprint by one and leaves every
/// other count as it was: no count ever goes down.
pub proof fn lemma_observed_counts(counts: Map<Seq<u8>, nat>, seen: Seq<u8>, fp: Seq<u8>)
    ensures
        count_in(observed(counts, seen), fp) == count_in(counts, fp) + (if seen == fp {
            1nat
        } else {
            0nat
        }),
        count_in(observed(counts, seen), fp) >= count_in(counts, fp),
{
}

/// After any run of sightings, the count of a fingerprint is its count before
/// the run plus the number of its sightings in the run.
pub proof fn lemma_counts_add_up(counts: Map<Seq<u8>, nat>, fps: Seq<Seq<u8>>, fp: Seq<u8>)
    ensures
        count_in(observed_all(counts, fps), fp) == count_in(counts, fp) + sightings(fps, fp),
    decreases fps.len(),
{
    if fps.len() > 0 {
        lemma_counts_add_up(counts, fps.drop_last(), fp);
        lemma_observed_counts(observed_all(counts, fps.drop_last()), fps.last(), fp);
    }
}

/// However the sightings of different fingerprints are interleaved, each
/// sighting returns the count its fingerprint had at the start plus the number
/// of sightings of that fingerprint up to and including itself.
pub proof fn lemma_returned_count(counts: Map<Seq<u8>, nat>, fps: Seq<Seq<u8>>, i: int)
    requires
        0 <= i < fps.len(),
    ensures
        returned(counts, fps, i) == count_in(counts, fps[i]) + sightings(fps.take(i + 1), fps[i]),
        returned(counts, fps, i) >= 1,
{
    lemma_counts_add_up(counts, fps.take(i + 1), fps[i]);
    assert(fps.take(i + 1).last() == fps[i]);
}

/// `n` sightings of one fingerprint return, in order, the `n` counts that
/// follow its count at the start, none twice and none left out, and leave its
/// count raised by `n`. On a fingerprint not seen before they return 1 to `n`.
pub proof fn lemma_repeated_sightings(counts: Map<Seq<u8>, nat>, fps: Seq<Seq<u8>>, fp: Seq<u8>)
    requires
        forall|i: int| 0 <= i < fps.len() ==> fps[i] == fp,
    ensures
        count_in(observed_all(counts, fps), fp) == count_in(counts, fp) + fps.len(),
        forall|i: int|
            0 <= i < fps.len() ==> #[trigger] returned(counts, fps, i) == count_in(counts, fp) + i
                + 1,
    decreases fps.len(),
{
    if fps.len() > 0 {
        let head = fps.drop_last();
        lemma_repeated_sightings(counts, head, fp);
        lemma_observed_counts(observed_all(counts, head), fp, fp);
        assert forall|i: int| 0 <= i < fps.len() implies #[trigger] returned(counts, fps, i)
            == count_in(counts, fp) + i + 1 by {
            if i < head.len() {
                assert(fps.take(i + 1) =~= head.take(i + 1));
                assert(returned(counts, head, i) == count_in(counts, fp) + i + 1);
            } else {
                assert(fps.take(i + 1) =~= fps);
            }
        }
    }
}

} // verus!

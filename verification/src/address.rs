use vstd::bytes::{lemma_auto_spec_u64_to_from_le_bytes, spec_u64_to_le_bytes, u64_to_le_bytes};
use vstd::prelude::*;

verus! {

/// The deterministic storage location of a record: the ordered list of seed
/// byte strings handed to the external store's derived-address primitive.
///
/// A poll is addressed by the single seed `[poll_id as 8 little-endian
/// bytes]`; a candidate by the seed pair `[poll_id bytes, name bytes]`. Two
/// distinct logical keys never produce the same seed list, so the store's
/// guarantee that distinct seed lists resolve to distinct locations carries
/// over to the records of this ledger.
pub struct RecordAddress {
    pub seeds: Vec<Vec<u8>>,
}

impl View for RecordAddress {
    type V = Seq<Seq<u8>>;

    open spec fn view(&self) -> Seq<Seq<u8>> {
        self.seeds.deep_view()
    }
}

/// Seed list locating the poll record keyed by `poll_id`.
pub open spec fn spec_poll_address(poll_id: u64) -> Seq<Seq<u8>> {
    seq![spec_u64_to_le_bytes(poll_id)]
}

/// Seed list locating the candidate record keyed by `poll_id` together with
/// a name whose encoded form is `name_bytes`.
pub open spec fn spec_candidate_address(poll_id: u64, name_bytes: Seq<u8>) -> Seq<Seq<u8>> {
    seq![spec_u64_to_le_bytes(poll_id), name_bytes]
}

/// Derives the address of the poll record keyed by `poll_id`.
pub fn poll_address(poll_id: u64) -> (r: RecordAddress)
    ensures
        r@ == spec_poll_address(poll_id),
{
    let mut seeds: Vec<Vec<u8>> = Vec::new();
    seeds.push(u64_to_le_bytes(poll_id));
    let r = RecordAddress { seeds };
    proof {
        assert(r@ =~~= spec_poll_address(poll_id));
    }
    r
}

/// Derives the address of the candidate record keyed by `poll_id` and
/// `candidate_name`.
pub fn candidate_address(poll_id: u64, candidate_name: &str) -> (r: RecordAddress)
    ensures
        r@ == spec_candidate_address(
            poll_id,
            vstd::utf8::encode_utf8(candidate_name@),
        ),
{
    let bytes = candidate_name.as_bytes();
    let mut name_seed: Vec<u8> = Vec::new();
    let mut i: usize = 0;
    while i < bytes.len()
        invariant
            0 <= i <= bytes@.len(),
            name_seed@ == bytes@.subrange(0, i as int),
        decreases bytes@.len() - i,
    {
        name_seed.push(bytes[i]);
        proof {
            assert(name_seed@ =~= bytes@.subrange(0, i + 1));
        }
        i = i + 1;
    }
    proof {
        assert(name_seed@ =~= bytes@);
    }
    let mut seeds: Vec<Vec<u8>> = Vec::new();
    seeds.push(u64_to_le_bytes(poll_id));
    seeds.push(name_seed);
    let r = RecordAddress { seeds };
    proof {
        assert(r@ =~~= spec_candidate_address(
            poll_id,
            vstd::utf8::encode_utf8(candidate_name@),
        ));
    }
    r
}

/// Two poll records collide on an address only when they share a `poll_id`.
pub proof fn lemma_poll_address_injective(id1: u64, id2: u64)
    ensures
        (spec_poll_address(id1) == spec_poll_address(id2)) <==> id1 == id2,
{
    lemma_auto_spec_u64_to_from_le_bytes();
    if spec_poll_address(id1) == spec_poll_address(id2) {
        assert(spec_poll_address(id1)[0] == spec_poll_address(id2)[0]);
    }
}

/// Two candidate records collide on an address only when they share both the
/// owning `poll_id` and the encoded name.
pub proof fn lemma_candidate_address_injective(
    id1: u64,
    name1: Seq<u8>,
    id2: u64,
    name2: Seq<u8>,
)
    ensures
        (spec_candidate_address(id1, name1) == spec_candidate_address(id2, name2)) <==> (id1 == id2
            && name1 == name2),
{
    lemma_auto_spec_u64_to_from_le_bytes();
    if spec_candidate_address(id1, name1) == spec_candidate_address(id2, name2) {
        assert(spec_candidate_address(id1, name1)[0] == spec_candidate_address(id2, name2)[0]);
        assert(spec_candidate_address(id1, name1)[1] == spec_candidate_address(id2, name2)[1]);
    }
    if id1 == id2 && name1 == name2 {
        assert(spec_candidate_address(id1, name1) =~= spec_candidate_address(id2, name2));
    }
}

/// A poll record and a candidate record never collide on an address: their
/// seed lists differ in length.
pub proof fn lemma_poll_candidate_addresses_distinct(
    poll_id: u64,
    other_poll_id: u64,
    name_bytes: Seq<u8>,
)
    ensures
        spec_poll_address(poll_id) != spec_candidate_address(other_poll_id, name_bytes),
{
    assert(spec_poll_address(poll_id).len() == 1);
    assert(spec_candidate_address(other_poll_id, name_bytes).len() == 2);
}

} // verus!

//! Account addresses, and the placeholder that stands for the paying worker.
use vstd::prelude::*;
use vstd::utf8::encode_utf8;

verus! {

/// A 32-byte account address.
#[derive(Clone, Copy, Debug)]
pub struct Address {
    pub bytes: [u8; 32],
}

impl View for Address {
    type V = Seq<u8>;

    open spec fn view(&self) -> Seq<u8> {
        self.bytes@
    }
}

impl Address {
    /// The address whose 32 bytes are all `b`.
    pub fn filled(b: u8) -> (r: Address)
        ensures
            r@ == Seq::new(32, |_i: int| b),
    {
        let r = Address { bytes: [b; 32] };
        assert(r@ =~= Seq::new(32, |_i: int| b));
        r
    }

    /// Whether two addresses hold the same bytes.
    pub fn same_as(&self, other: &Address) -> (r: bool)
        ensures
            r == (self@ == other@),
    {
        let mut i: usize = 0;
        while i < 32
            invariant
                0 <= i <= 32,
                self@.len() == 32,
                other@.len() == 32,
                forall|j: int| 0 <= j < i ==> self@[j] == other@[j],
            decreases 32 - i,
        {
            if self.bytes[i] != other.bytes[i] {
                return false;
            }
            i = i + 1;
        }
        assert(self@ =~= other@);
        true
    }
}


/// The queue program's own address.
pub const QUEUE_PROGRAM_ID: [u8; 32] = [
    37, 137, 189, 252, 18, 245, 185, 255, 68, 142, 218, 80, 152, 98, 37, 61,
    122, 132, 248, 122, 88, 55, 81, 254, 135, 39, 205, 172, 1, 199, 24, 161,
];

/// The placeholder that an instruction template names where the worker
/// that submits the batch pays.
pub const PAYER_PLACEHOLDER: [u8; 32] = [
    2, 210, 76, 52, 253, 178, 244, 124, 78, 202, 49, 79, 61, 209, 89, 128,
    6, 12, 65, 169, 116, 119, 74, 240, 77, 215, 3, 107, 224, 0, 0, 0,
];

/// The first seed of every queue address: the text `queue`.
pub const QUEUE_SEED: [u8; 5] = [113, 117, 101, 117, 101];

/// The byte sequences held by a list of byte vectors.
pub open spec fn seqs_of(v: Seq<Vec<u8>>) -> Seq<Seq<u8>> {
    Seq::new(v.len(), |i: int| v[i]@)
}

/// The SHA-256 digest of `data`.
pub uninterp spec fn sha256_of(data: Seq<u8>) -> Seq<u8>;

/// The program-derived address of `program` for `seeds`, when one is found.
pub uninterp spec fn program_address(seeds: Seq<Seq<u8>>, program: Seq<u8>) -> Option<Seq<u8>>;

/// Relies on solana_program::hash::hash: the SHA-256 digest of `data`, which
/// is 32 bytes long.
#[verifier::external_body]
pub(crate) fn sha256(data: &[u8]) -> (r: Vec<u8>)
    ensures
        r@ == sha256_of(data@),
        r@.len() == 32,
{
    solana_program::hash::hash(data).to_bytes().to_vec()
}

/// Relies on solana_program::pubkey::Pubkey::try_find_program_address: the
/// program-derived address for `seeds`, or none; none whenever a seed is
/// longer than 32 bytes.
#[verifier::external_body]
pub(crate) fn find_program_address(seeds: &Vec<Vec<u8>>, program: &Address) -> (r: Option<Address>)
    ensures
        r is Some <==> program_address(seqs_of(seeds@), program@) is Some,
        r is Some ==> r->0@ == program_address(seqs_of(seeds@), program@)->0,
        (exists|i: int| 0 <= i < seeds@.len() && (#[trigger] seeds@[i])@.len() > 32) ==> r is None,
{
    let refs: Vec<&[u8]> = seeds.iter().map(|s| s.as_slice()).collect();
    let program_id = solana_program::pubkey::Pubkey::new_from_array(program.bytes);
    solana_program::pubkey::Pubkey::try_find_program_address(&refs, &program_id).map(
        |(key, _bump)| Address { bytes: key.to_bytes() },
    )
}

/// A copy of `s` as a vector.
pub fn bytes_to_vec(s: &[u8]) -> (r: Vec<u8>)
    ensures
        r@ == s@,
{
    let mut out: Vec<u8> = Vec::new();
    let mut i: usize = 0;
    while i < s.len()
        invariant
            0 <= i <= s@.len(),
            out@ == s@.take(i as int),
        decreases s@.len() - i,
    {
        out.push(s[i]);
        assert(out@ =~= s@.take(i as int + 1));
        i = i + 1;
    }
    assert(s@.take(s@.len() as int) =~= s@);
    out
}

/// The seeds of the address of `authority`'s queue `id`.
pub open spec fn queue_seeds(authority: Address, id: Seq<char>) -> Seq<Seq<u8>> {
    seq![QUEUE_SEED@, authority@, encode_utf8(id)]
}

/// The address of `authority`'s queue `id`, when one is found; never for an
/// id longer than 32 bytes.
pub fn queue_address(authority: &Address, id: &String) -> (r: Option<Address>)
    ensures
        r is Some <==> program_address(queue_seeds(*authority, id@), QUEUE_PROGRAM_ID@) is Some,
        r is Some ==> r->0@ == program_address(queue_seeds(*authority, id@), QUEUE_PROGRAM_ID@)->0,
        encode_utf8(id@).len() > 32 ==> r is None,
{
    let seed = QUEUE_SEED;
    let mut seeds: Vec<Vec<u8>> = Vec::new();
    seeds.push(bytes_to_vec(seed.as_slice()));
    seeds.push(bytes_to_vec(authority.bytes.as_slice()));
    seeds.push(bytes_to_vec(id.as_str().as_bytes()));
    let program = Address { bytes: QUEUE_PROGRAM_ID };
    assert(seqs_of(seeds@) =~= queue_seeds(*authority, id@));
    assert(seeds@[2]@ == encode_utf8(id@));
    find_program_address(&seeds, &program)
}

} // verus!

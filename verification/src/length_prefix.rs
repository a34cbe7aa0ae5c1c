//! Storage keys: a name space behind its length.
use vstd::prelude::*;

verus! {

/// The longest name space that a key can hold.
pub const MAX_NAMESPACE: usize = 0xFFFF;

/// The two bytes that hold the length `n`, the higher one first.
pub open spec fn length_bytes(n: nat) -> Seq<u8> {
    seq![(n / 256) as u8, (n % 256) as u8]
}

/// `namespace` behind the two bytes of its length.
pub open spec fn length_prefixed(namespace: Seq<u8>) -> Seq<u8> {
    length_bytes(namespace.len()) + namespace
}

/// Puts the two bytes of its length in front of `namespace`.
pub fn to_length_prefixed(namespace: &[u8]) -> (key: Vec<u8>)
    requires
        namespace@.len() <= MAX_NAMESPACE,
    ensures
        key@ == length_prefixed(namespace@),
{
    let mut key: Vec<u8> = Vec::with_capacity(namespace.len() + 2);
    let length: [u8; 2] = encode_length(namespace);
    key.push(length[0]);
    key.push(length[1]);
    key.extend_from_slice(namespace);
    assert(key@ =~= length_prefixed(namespace@));
    key
}

/// The two bytes of the length of `namespace`.
pub fn encode_length(namespace: &[u8]) -> (length: [u8; 2])
    requires
        namespace@.len() <= MAX_NAMESPACE,
    ensures
        length@ == length_bytes(namespace@.len()),
{
    let n: usize = namespace.len();
    let length: [u8; 2] = [(n / 256) as u8, (n % 256) as u8];
    assert(length@ =~= length_bytes(n as nat));
    length
}

/// From a key that goes on behind a name space both the name space and the rest can be told: the
/// keys of one name space never run into those of another.
pub proof fn length_prefix_is_unambiguous(
    a: Seq<u8>,
    rest_a: Seq<u8>,
    b: Seq<u8>,
    rest_b: Seq<u8>,
)
    requires
        a.len() <= MAX_NAMESPACE,
        b.len() <= MAX_NAMESPACE,
        length_prefixed(a) + rest_a == length_prefixed(b) + rest_b,
    ensures
        a == b,
        rest_a == rest_b,
{
    let whole = length_prefixed(a) + rest_a;
    assert(whole[0] == (a.len() / 256) as u8);
    assert(whole[1] == (a.len() % 256) as u8);
    assert(whole[0] == (b.len() / 256) as u8);
    assert(whole[1] == (b.len() % 256) as u8);
    assert(a.len() == b.len());
    assert(whole.subrange(2, 2 + a.len() as int) =~= a);
    assert(whole.subrange(2, 2 + a.len() as int) =~= b);
    assert(whole.skip(2 + a.len() as int) =~= rest_a);
    assert(whole.skip(2 + a.len() as int) =~= rest_b);
}

/// The two bytes before a name space hold its length, and the name space follows unchanged.
pub proof fn prefix_holds_the_length(namespace: Seq<u8>)
    requires
        namespace.len() <= 0xFFFF,
    ensures
        length_bytes(namespace.len()).len() == 2,
        256 * length_bytes(namespace.len())[0] + length_bytes(namespace.len())[1]
            == namespace.len(),
        length_prefixed(namespace).len() == namespace.len() + 2,
        256 * length_prefixed(namespace)[0] + length_prefixed(namespace)[1] == namespace.len(),
        length_prefixed(namespace).skip(2) == namespace,
        MAX_NAMESPACE == 0xFFFF,
{
    assert(length_prefixed(namespace).skip(2) =~= namespace);
}

} // verus!

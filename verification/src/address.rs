//! Addresses: who calls, who owns a position, which contract holds a token.
use soroban_sdk::TryFromVal;
use vstd::prelude::*;

verus! {

/// What an address stands for on the network.
#[derive(Clone, Copy, Debug, PartialEq, Eq, Structural)]
pub enum AddressKind {
    /// A Stellar account, known by its public key.
    Account,
    /// A deployed contract, known by its identifier.
    Contract,
}

/// An account or a contract. The 32 bytes that tell one from another are held as two
/// big-endian halves.
#[derive(Clone, Copy, Debug, PartialEq, Eq, Structural)]
pub struct Address {
    pub kind: AddressKind,
    pub hi: u128,
    pub lo: u128,
}

/// The text of an address ("G..." or "C..."), as ASCII bytes.
pub uninterp spec fn strkey_text(contract: bool, hi: u128, lo: u128) -> Seq<u8>;

impl Address {
    /// The text of the address.
    pub open spec fn text(self) -> Seq<u8> {
        strkey_text(self.kind is Contract, self.hi, self.lo)
    }

    /// The text of the address, as the network writes it.
    pub fn to_text(&self) -> (text: Vec<u8>)
        ensures
            text@ == self.text(),
    {
        strkey(self)
    }
}

/// `soroban_sdk::Address::to_string`: the strkey text of an address. It is taken to depend
/// on nothing but the kind and the 32 bytes of the address; what the text is, is not said.
#[verifier::external_body]
fn strkey(address: &Address) -> (text: Vec<u8>)
    ensures
        text@ == strkey_text(address.kind is Contract, address.hi, address.lo),
{
    let mut id = [0u8; 32];
    id[..16].copy_from_slice(&address.hi.to_be_bytes());
    id[16..].copy_from_slice(&address.lo.to_be_bytes());
    let key = soroban_sdk::xdr::PublicKey::PublicKeyTypeEd25519(soroban_sdk::xdr::Uint256(id));
    let plain = match address.kind {
        AddressKind::Account => soroban_sdk::xdr::ScAddress::Account(soroban_sdk::xdr::AccountId(key)),
        AddressKind::Contract => soroban_sdk::xdr::ScAddress::Contract(soroban_sdk::xdr::Hash(id)),
    };
    let env = soroban_sdk::Env::default();
    let text = soroban_sdk::Address::try_from_val(&env, &plain).unwrap().to_string();
    let mut bytes = vec![0u8; text.len() as usize];
    text.copy_into_slice(&mut bytes);
    bytes
}

/// `a` comes before `b` in the order of a dictionary.
pub open spec fn precedes(a: Seq<u8>, b: Seq<u8>) -> bool
    decreases a.len(),
{
    if b.len() == 0 {
        false
    } else if a.len() == 0 {
        true
    } else if a[0] != b[0] {
        a[0] < b[0]
    } else {
        precedes(a.skip(1), b.skip(1))
    }
}

/// Whether `a` comes before `b` in the order of a dictionary.
pub fn text_precedes(a: &Vec<u8>, b: &Vec<u8>) -> (r: bool)
    ensures
        r == precedes(a@, b@),
{
    let mut i: usize = 0;
    assert(a@.skip(0) =~= a@);
    assert(b@.skip(0) =~= b@);
    while i < a.len() && i < b.len()
        invariant
            i <= a@.len(),
            i <= b@.len(),
            precedes(a@, b@) == precedes(a@.skip(i as int), b@.skip(i as int)),
        decreases a@.len() - i,
    {
        if a[i] != b[i] {
            return a[i] < b[i];
        }
        assert(a@.skip(i as int).skip(1) =~= a@.skip(i + 1));
        assert(b@.skip(i as int).skip(1) =~= b@.skip(i + 1));
        i = i + 1;
    }
    i < b.len()
}

} // verus!

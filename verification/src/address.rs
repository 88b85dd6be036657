//! Account addresses.

use vstd::prelude::*;

use crate::hex_text;

verus! {

/// The address of an account: the twenty bytes of an Ethereum address.
#[derive(Clone, Copy, Debug, PartialEq, Eq)]
pub struct Address {
    pub bytes: [u8; 20],
}

impl View for Address {
    type V = Seq<u8>;

    open spec fn view(&self) -> Seq<u8> {
        self.bytes@
    }
}

impl Address {
    /// Whether this is the same address as `other`.
    pub fn is(&self, other: &Address) -> (same: bool)
        ensures
            same == (self@ == other@),
    {
        let mut i: usize = 0;
        while i < 20
            invariant
                i <= 20,
                forall|j: int| 0 <= j < i ==> self@[j] == other@[j],
            decreases 20 - i,
        {
            if self.bytes[i] != other.bytes[i] {
                return false;
            }
            i += 1;
        }
        assert(self@ =~= other@);
        true
    }
}

/// Formats an address with the `Debug` implementation of `web3::types::H160`,
/// which writes `0x` and then all twenty bytes as lower case hexadecimal
/// digits.
#[verifier::external_body]
fn debug_text(address: &Address) -> (text: String)
    ensures
        text@ == hex_text::prefixed_hex(address@),
{
    format!("{:?}", web3::types::H160::from(address.bytes))
}

/// Renders the address of the contract the way the server reports it.
pub fn render_contract_address(contract_address: &Address) -> (text: String)
    ensures
        text@ == hex_text::prefixed_hex(contract_address@),
{
    debug_text(contract_address)
}

/// An address is known by all of its twenty bytes: two addresses that differ
/// anywhere are told apart.
pub proof fn law_all_bytes_count(a: Address, b: Address)
    ensures
        a@ == a.bytes@,
        a@.len() == 20,
        a@ == b@ <==> forall|i: int| 0 <= i < 20 ==> #[trigger] a.bytes@[i] == b.bytes@[i],
{
    if forall|i: int| 0 <= i < 20 ==> #[trigger] a.bytes@[i] == b.bytes@[i] {
        assert(a@ =~= b@);
    }
    if a@ == b@ {
        assert forall|i: int| 0 <= i < 20 implies #[trigger] a.bytes@[i] == b.bytes@[i] by {
            assert(a@[i] == b@[i]);
        }
    }
}

/// The contract is reported under `0x` and the digits of all its bytes.
pub proof fn law_reported_contract_is_whole(contract_address: Address, text: String)
    requires
        call_ensures(render_contract_address, (&contract_address,), text),
    ensures
        text@ == "0x"@ + hex_text::hex_text(contract_address.bytes@),
        text@.len() == 42,
{
    hex_text::law_reported_text_has_its_prefix(contract_address.bytes@);
    reveal_strlit("0x");
}

} // verus!

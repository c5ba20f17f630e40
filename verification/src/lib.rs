//! Verified core of a desktop bridge that exposes a local JetBrains MCP server to
//! Web ChatGPT through a tunnel, behind an OAuth 2.1 gateway.
pub mod gateway;
pub mod logbus;
pub mod mcp;
pub mod netutil;
pub mod oauth;
pub mod oauth_laws;
pub mod primitives;
pub mod store;
pub mod text;
pub mod tunnel;

use vstd::prelude::*;

use crate::primitives::random_bytes;
use crate::text::{hex_lower, push_hex_lower, to_owned_string};

verus! {

/// An access key: `sk-mcp-` and the bytes in lowercase hex.
pub open spec fn api_key_text(bytes: Seq<u8>) -> Seq<char> {
    "sk-mcp-"@ + hex_lower(bytes)
}

/// Formats an access key from its random bytes.
pub fn api_key_from_bytes(bytes: &[u8]) -> (r: String)
    ensures
        r@ == api_key_text(bytes@),
{
    let mut out = to_owned_string("sk-mcp-");
    push_hex_lower(&mut out, bytes);
    out
}

/// Generates an access key: `sk-mcp-` followed by 32 hex digits (128 random bits).
pub fn gen_api_key() -> (r: String)
    ensures
        exists|bytes: Seq<u8>| bytes.len() == 16 && r@ == #[trigger] api_key_text(bytes),
{
    let b = random_bytes(16);
    api_key_from_bytes(&b)
}

/// An access key is 39 characters long: the 7-character prefix and 32 lowercase
/// hex digits.
pub proof fn law_api_key_shape(bytes: Seq<u8>)
    requires
        bytes.len() == 16,
    ensures
        api_key_text(bytes).len() == 39,
        forall|i: int|
            7 <= i < 39 ==> crate::text::is_lower_hex_char(#[trigger] api_key_text(bytes)[i]),
{
    reveal_strlit("sk-mcp-");
    crate::text::lemma_hex_lower_len(bytes);
    crate::text::lemma_hex_lower_digits(bytes);
    assert forall|i: int| 7 <= i < 39 implies crate::text::is_lower_hex_char(
        #[trigger] api_key_text(bytes)[i],
    ) by {
        assert(api_key_text(bytes)[i] == hex_lower(bytes)[i - 7]);
    }
}

} // verus!

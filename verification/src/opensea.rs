//! What the OpenSea API answers about an asset, and where the server asks.

use vstd::prelude::*;

verus! {

/// An asset as the OpenSea API describes it.
#[derive(Debug)]
pub struct NFTFetched {
    pub name: Option<String>,
    pub image_url: String,
    pub permalink: String,
    pub description: Option<String>,
    pub image_thumbnail_url: Option<String>,
    pub collection: CollectionFetched,
}

/// The collection an asset belongs to, as the OpenSea API describes it.
#[derive(Debug)]
pub struct CollectionFetched {
    pub slug: String,
    pub name: String,
    pub description: Option<String>,
    pub image_url: Option<String>,
}

/// Path, relative to the API's base URL, of the asset `token_id` of the
/// contract `token_address`.
pub open spec fn asset_path_text(token_address: Seq<char>, token_id: Seq<char>) -> Seq<char> {
    "asset/"@ + token_address + "/"@ + token_id
}

/// Path, relative to the API's base URL, of the asset `token_id` of the
/// contract `token_address`: `asset/{token_address}/{token_id}`.
pub fn asset_path(token_address: &str, token_id: &str) -> (path: String)
    ensures
        path@ == asset_path_text(token_address@, token_id@),
        path@ == "asset/"@ + token_address@ + "/"@ + token_id@,
{
    String::from_str("asset/").concat(token_address).concat("/").concat(token_id)
}

/// The asset path is `asset/`, then the whole contract address, then `/`,
/// then the whole token id: each part can be read back at its place.
pub proof fn lemma_asset_path_parts(token_address: Seq<char>, token_id: Seq<char>)
    ensures
        ({
            let p = asset_path_text(token_address, token_id);
            let a = token_address.len() as int;
            &&& p.len() == 7 + a + token_id.len()
            &&& p.subrange(0, 6) == "asset/"@
            &&& p.subrange(6, 6 + a) == token_address
            &&& p[6 + a] == '/'
            &&& p.subrange(7 + a, p.len() as int) == token_id
        }),
{
    reveal_strlit("asset/");
    reveal_strlit("/");
    let p = asset_path_text(token_address, token_id);
    let a = token_address.len() as int;
    assert(p.subrange(0, 6) =~= "asset/"@);
    assert(p.subrange(6, 6 + a) =~= token_address);
    assert(p.subrange(7 + a, p.len() as int) =~= token_id);
}

/// Two assets of the same contract have the same path only if they have the
/// same token id.
pub proof fn lemma_asset_paths_tell_tokens_apart(
    token_address: Seq<char>,
    a: Seq<char>,
    b: Seq<char>,
)
    requires
        asset_path_text(token_address, a) == asset_path_text(token_address, b),
    ensures
        a == b,
{
    lemma_asset_path_parts(token_address, a);
    lemma_asset_path_parts(token_address, b);
}

} // verus!

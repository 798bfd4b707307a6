//! Media the client is sent: the announcement of every texture and
//! model with its SHA-1, and the files it then asks for.
use vstd::prelude::*;
use sha1::{Digest, Sha1};
use crate::text::ends_with;
use crate::textures::{LuantiTexture, safe_name, path_of_safe_name};

verus! {

/// The SHA-1 digest of a byte string.
pub uninterp spec fn sha1_of(data: Seq<u8>) -> Seq<u8>;

/// `Sha1::digest` (sha1 crate): the 20-byte SHA-1 hash of `data`. The
/// contract names the result and claims only that it depends on the bytes
/// alone.
#[verifier::external_body]
fn sha1_digest(data: &[u8]) -> (r: [u8; 20])
    ensures
        r@ == sha1_of(data@),
{
    Sha1::digest(data).into()
}

/// The SHA-1 of a media file's contents, as announced to the client.
pub fn get_sha1(contents: &Vec<u8>) -> (r: [u8; 20])
    ensures
        r@ == sha1_of(contents@),
{
    sha1_digest(contents.as_slice())
}

/// The announcement entry of a media file: its safe name and the SHA-1 of
/// its contents.
pub fn announce(texture: &LuantiTexture, contents: &Vec<u8>) -> (r: (String, [u8; 20]))
    ensures
        r.0@ == safe_name(texture@),
        r.1@ == sha1_of(contents@),
{
    (texture.to_luanti_safe(), get_sha1(contents))
}

/// A requested file: the texture its safe name stands for, and whether it
/// is a model (".b3d", read from the model root).
pub fn requested_media(file_name: &str) -> (r: (LuantiTexture, bool))
    ensures
        r.0@ == path_of_safe_name(file_name@),
        r.1 == (".b3d"@.len() <= file_name@.len() && file_name@.subrange(
            file_name@.len() - ".b3d"@.len(),
            file_name@.len() as int,
        ) == ".b3d"@),
{
    (LuantiTexture::from_luanti_safe(file_name), ends_with(file_name, ".b3d"))
}

} // verus!

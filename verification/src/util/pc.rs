//! A development machine: no console storage to mount, a fixed test
//! archive, and product keys under the user's home directory.
use crate::util::path::{
    ascii_of, components, lemma_components_push, lemma_components_push_relative,
    lemma_components_single, literal_bytes, push_path, push_path_bytes, SEP,
};
use crate::util::{KeyFiles, TitleId};
use vstd::prelude::*;

verus! {

/// A libnx error; there is none on a development machine.
#[derive(Debug, Copy, Clone)]
pub struct LibnxError;

/// The path of a title's archive.
pub struct SdkPath(pub Vec<u8>);

/// The archive every title resolves to.
pub open spec fn test_nca_path() -> Seq<u8> {
    ascii_of("/home/leo60228/fuji/tests/hbmenu.nca"@)
}

/// Where hactool's product keys lie, below a home directory.
pub open spec fn prod_keys_in(home: Seq<u8>) -> Seq<u8> {
    push_path(home, ascii_of(".switch/prod.keys"@))
}

/// The product keys lie below the whole home directory: the key path
/// starts with the home directory, and its names are the home directory's
/// followed by `.switch` and `prod.keys`.
pub proof fn lemma_prod_keys_below_home(home: Seq<u8>)
    ensures
        prod_keys_in(home).len() >= home.len(),
        prod_keys_in(home).subrange(0, home.len() as int) == home,
        components(prod_keys_in(home)) == components(home) + seq![
            ascii_of(".switch"@),
            ascii_of("prod.keys"@),
        ],
{
    reveal_strlit(".switch/prod.keys");
    reveal_strlit(".switch");
    reveal_strlit("prod.keys");
    let sw = ascii_of(".switch"@);
    let pk = ascii_of("prod.keys"@);
    let rel = ascii_of(".switch/prod.keys"@);
    assert(rel =~= sw + seq![SEP] + pk);
    assert(rel[0] != SEP);
    assert(!sw.contains(SEP));
    assert(!pk.contains(SEP));
    assert(sw != seq![crate::util::path::DOT]);
    assert(sw != seq![crate::util::path::DOT, crate::util::path::DOT]);
    assert(pk != seq![crate::util::path::DOT]);
    assert(pk != seq![crate::util::path::DOT, crate::util::path::DOT]);
    lemma_components_single(sw);
    lemma_components_push(sw, pk);
    assert(push_path(sw, pk) == rel);
    lemma_components_push_relative(home, rel);
    assert(components(home) + seq![sw].push(pk) =~= components(home) + seq![sw, pk]);
    assert(prod_keys_in(home).subrange(0, home.len() as int) =~= home);
}

/// There is no console storage to mount: the root is the empty path.
pub fn mount_sdk_fs(_fs: &str) -> (root: Vec<u8>)
    ensures
        root@ == Seq::<u8>::empty(),
{
    Vec::new()
}

impl SdkPath {
    /// The archive is reached where it lies.
    pub fn mount(&self) -> (p: Vec<u8>)
        ensures
            p@ == self.0@,
    {
        let mut p: Vec<u8> = Vec::new();
        crate::util::path::append_bytes(&mut p, self.0.as_slice());
        p
    }
}

/// Every title resolves to the test archive.
pub fn get_tid_nca(_tid: TitleId) -> (r: Result<SdkPath, LibnxError>)
    ensures
        r matches Ok(p) && p.0@ == test_nca_path(),
{
    proof {
        reveal_strlit("/home/leo60228/fuji/tests/hbmenu.nca");
    }
    Ok(SdkPath(literal_bytes("/home/leo60228/fuji/tests/hbmenu.nca")))
}

/// The key files below the home directory `home`: the product keys only.
pub fn key_files_in(home: &[u8]) -> (k: KeyFiles)
    ensures
        k.prod@ == prod_keys_in(home@),
        k.title is None,
{
    let mut prod: Vec<u8> = Vec::new();
    crate::util::path::append_bytes(&mut prod, home);
    proof {
        reveal_strlit(".switch/prod.keys");
    }
    let rel = literal_bytes(".switch/prod.keys");
    push_path_bytes(&mut prod, rel.as_slice());
    KeyFiles { prod, title: None }
}

/// `dirs::home_dir`, with the path as its raw bytes. What it returns comes
/// from the environment (`HOME`) and the user database, so nothing is
/// stated of it: neither whether there is one nor what it holds.
#[verifier::external_body]
fn home_dir() -> (h: Option<Vec<u8>>) {
    match dirs::home_dir() {
        Some(p) => Some(p.into_os_string().into_encoded_bytes()),
        None => None,
    }
}

/// The key files hactool reads on this machine: the product keys below the
/// user's home directory; `None` where there is no home directory.
pub fn hactool_key_files() -> (k: Option<KeyFiles>)
    ensures
        k matches Some(keys) ==> keys.title is None && exists|home: Seq<u8>|
            keys.prod@ == prod_keys_in(home),
{
    match home_dir() {
        Some(home) => {
            let keys = key_files_in(home.as_slice());
            assert(keys.prod@ == prod_keys_in(home@));
            Some(keys)
        },
        None => None,
    }
}

} // verus!

//! Which chain specification a node is started with, chosen from the
//! identifier given on its command line.
use vstd::prelude::*;
use vstd::string::StringSliceAdditionalSpecFns;

verus! {

/// Where a node's chain specification comes from.
#[derive(Clone, Debug, PartialEq, Eq)]
pub enum ChainSpecSource {
    /// The development chain.
    Development,
    /// The local test network.
    LocalTestnet,
    /// A JSON file at the given path.
    JsonFile(String),
}

/// The UTF-8 bytes of "dev".
pub open spec fn dev_bytes() -> Seq<u8> {
    seq![100u8, 101u8, 118u8]
}

/// The UTF-8 bytes of "local".
pub open spec fn local_bytes() -> Seq<u8> {
    seq![108u8, 111u8, 99u8, 97u8, 108u8]
}

fn bytes_are(b: &[u8], expected: &[u8]) -> (r: bool)
    ensures
        r == (b@ == expected@),
{
    if b.len() != expected.len() {
        return false;
    }
    let mut i: usize = 0;
    while i < b.len()
        invariant
            b@.len() == expected@.len(),
            0 <= i <= b@.len(),
            forall|j: int| 0 <= j < i ==> b@[j] == expected@[j],
        decreases b@.len() - i,
    {
        if b[i] != expected[i] {
            return false;
        }
        i = i + 1;
    }
    assert(b@ =~= expected@);
    true
}

/// The chain specification named by `id`: "dev" is the development chain,
/// "" and "local" the local test network, anything else a path to a JSON file.
pub fn chain_spec_source(id: &str) -> (r: ChainSpecSource)
    ensures
        id.spec_bytes() == dev_bytes() ==> r == ChainSpecSource::Development,
        (id.spec_bytes().len() == 0 || id.spec_bytes() == local_bytes()) ==> r
            == ChainSpecSource::LocalTestnet,
        id.spec_bytes() != dev_bytes() && id.spec_bytes().len() != 0 && id.spec_bytes()
            != local_bytes() ==> (r matches ChainSpecSource::JsonFile(path) && path@ == id@),
{
    let bytes = id.as_bytes();
    let dev: [u8; 3] = [100u8, 101u8, 118u8];
    let local: [u8; 5] = [108u8, 111u8, 99u8, 97u8, 108u8];
    assert(dev@ =~= dev_bytes());
    assert(local@ =~= local_bytes());
    if bytes_are(bytes, dev.as_slice()) {
        ChainSpecSource::Development
    } else if bytes.len() == 0 || bytes_are(bytes, local.as_slice()) {
        ChainSpecSource::LocalTestnet
    } else {
        ChainSpecSource::JsonFile(id.to_owned())
    }
}

} // verus!

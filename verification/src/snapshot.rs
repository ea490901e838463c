//! Reading a function bytecode-cache envelope: a bincode record of the
//! magic `TBCCACHE`, a format version and the cached modules (specifier and
//! code-cache bytes); only version 1 is read.

use vstd::prelude::*;

verus! {

/// The magic that opens a bytecode-cache envelope.
pub open spec fn cache_magic() -> Seq<u8> {
    seq![0x54u8, 0x42u8, 0x43u8, 0x43u8, 0x41u8, 0x43u8, 0x48u8, 0x45u8]
}

/// The only envelope version this runtime reads.
pub const BYTECODE_CACHE_VERSION: u32 = 1;

/// One cached module: its specifier and its code-cache bytes.
pub type CacheEntry = (String, Vec<u8>);

pub open spec fn entry_views(v: Seq<CacheEntry>) -> Seq<(Seq<char>, Seq<u8>)> {
    v.map_values(|e: CacheEntry| (e.0@, e.1@))
}

/// What `bincode::deserialize` makes of `payload` as an envelope (magic,
/// version, modules): `None` when the bytes are not one.
pub uninterp spec fn bincode_envelope(payload: Seq<u8>) -> Option<(Seq<u8>, u32, Seq<(Seq<char>, Seq<u8>)>)>;

/// `bincode::deserialize::<([u8; 8], u32, Vec<(String, Vec<u8>)>)>`; `None`
/// on a decode error. What the bytes decode to is left to the name.
#[verifier::external_body]
fn decode_envelope(payload: &[u8]) -> (r: Option<([u8; 8], u32, Vec<CacheEntry>)>)
    ensures
        r is None <==> bincode_envelope(payload@) is None,
        r matches Some(t) ==> bincode_envelope(payload@) == Some((t.0@, t.1, entry_views(t.2@))),
{
    match bincode::deserialize::<([u8; 8], u32, Vec<CacheEntry>)>(payload) {
        Ok(t) => Some(t),
        Err(_) => None,
    }
}

/// The cached modules of an envelope that decodes, carries the magic and is
/// version 1; otherwise none.
pub open spec fn cached_modules(payload: Seq<u8>) -> Option<Seq<(Seq<char>, Seq<u8>)>> {
    match bincode_envelope(payload) {
        Some((magic, version, entries)) => if magic == cache_magic() && version == 1 { Some(entries) } else { None },
        None => None,
    }
}

/// Decodes a bytecode-cache envelope.
pub fn decode_function_bytecode_cache(payload: &[u8]) -> (r: Option<Vec<CacheEntry>>)
    ensures
        r is None <==> cached_modules(payload@) is None,
        r matches Some(v) ==> cached_modules(payload@) == Some(entry_views(v@)),
{
    let (magic, version, entries) = match decode_envelope(payload) {
        Some(t) => t,
        None => return None,
    };
    let expected: [u8; 8] = [0x54, 0x42, 0x43, 0x43, 0x41, 0x43, 0x48, 0x45];
    let mut i: usize = 0;
    while i < 8
        invariant
            i <= 8,
            expected@ == cache_magic(),
            magic@.len() == 8,
            bincode_envelope(payload@) == Some((magic@, version, entry_views(entries@))),
            forall|j: int| 0 <= j < i ==> magic@[j] == expected@[j],
        decreases 8 - i,
    {
        if magic[i] != expected[i] {
            proof {
                assert(magic@[i as int] != cache_magic()[i as int]);
                assert(magic@ != cache_magic());
            }
            return None;
        }
        i = i + 1;
    }
    proof {
        assert(magic@ =~= cache_magic());
    }
    if version != BYTECODE_CACHE_VERSION {
        return None;
    }
    Some(entries)
}

} // verus!

//! Properties of the lookup engine, stated and proved over the same spec
//! functions that the executable functions' contracts use.

use vstd::prelude::*;

use crate::err::Error;
use crate::ip::spec_parse_ip;
use crate::meta::lang_offset;
use crate::reader::{spec_descend, spec_find, spec_resolve, Reader};
use vstd::utf8::encode_utf8;

verus! {

/// Lookup is deterministic: for one database, address and language, any two
/// results that `find`'s contract admits are the same, field for field.
pub proof fn lemma_find_deterministic(
    r: Reader,
    addr: Seq<char>,
    lang: Seq<char>,
    r1: Result<Seq<Seq<char>>, Error>,
    r2: Result<Seq<Seq<char>>, Error>,
)
    requires
        r1 == spec_find(r, addr, lang),
        r2 == spec_find(r, addr, lang),
    ensures
        r1 == r2,
{
}

/// A language code absent from the header fails with `UnknownLanguage`,
/// whatever the address looks like.
pub proof fn lemma_unknown_language(r: Reader, addr: Seq<char>, lang: Seq<char>)
    requires
        lang_offset(r.meta.languages@, lang) is None,
    ensures
        spec_find(r, addr, lang) == Err::<Seq<Seq<char>>, Error>(Error::UnknownLanguage),
{
}

/// A well-formed address of a family the database does not declare fails
/// with `VersionMismatch` — never `NotFound` and never a bounds failure.
pub proof fn lemma_version_mismatch(r: Reader, addr: Seq<char>, lang: Seq<char>)
    requires
        lang_offset(r.meta.languages@, lang) is Some,
        r.meta.fields@.len() > 0,
        spec_parse_ip(encode_utf8(addr)) matches Some(bin) && ((bin.len() == 4
            && !r.meta.spec_v4_enabled()) || (bin.len() != 4 && !r.meta.spec_v6_enabled())),
    ensures
        spec_find(r, addr, lang) == Err::<Seq<Seq<char>>, Error>(Error::VersionMismatch),
{
}

/// A resolved record always lies inside the buffer: whenever resolution
/// succeeds, the record is exactly the in-bounds byte range it names, so a
/// buffer too short for the length prefix or the record itself can only
/// produce `OutOfBounds`, never a read past the end.
pub proof fn lemma_resolve_in_bounds(d: Seq<u8>, nc: int, leaf: int)
    requires
        spec_resolve(d, nc, leaf) is Ok,
    ensures
        ({
            let off = leaf - nc + nc * 8;
            let l = crate::bytes::spec_be16(d, off) as int;
            &&& 0 <= off
            &&& off + 2 + l <= d.len()
            &&& spec_resolve(d, nc, leaf) == Ok::<Seq<u8>, Error>(d.subrange(off + 2, off + 2 + l))
        }),
{
}

/// A descent that runs on a buffer too short for a child read it needs fails
/// with `OutOfBounds`; it never reads outside the buffer.
pub proof fn lemma_descend_out_of_bounds(d: Seq<u8>, nc: int, addr: Seq<u8>, node: int, i: int)
    requires
        0 <= node <= nc,
        0 <= i < 8 * addr.len(),
        node * 8 + crate::reader::spec_bit(addr, i) * 4 + 4 > d.len(),
    ensures
        spec_descend(d, nc, addr, node, i) == Err::<u32, Error>(Error::OutOfBounds),
{
}

} // verus!

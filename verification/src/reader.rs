//! The database reader: loading, trie descent, and record resolution.

use vstd::prelude::*;

use crate::base_station::BaseStationInfo;
use crate::bytes::{read_be16, read_be32, spec_be16, spec_be32};
use crate::city::CityInfo;
use crate::district::DistrictInfo;
use crate::err::Error;
use crate::idc::IdcInfo;
use crate::ip::{parse_ip, spec_parse_ip};
use crate::json::{pairs_u64_view, strings_view};
use crate::meta::{lang_offset, parse_meta, spec_header, Meta};
use crate::text::{project, spec_field, spec_project};
use vstd::utf8::encode_utf8;

verus! {

/// What a lookup returns for a database, an address literal and a language
/// code: the ordered record fields after the language's leading-field skip,
/// or the exact failure.
pub open spec fn spec_find(r: Reader, addr: Seq<char>, lang: Seq<char>) -> Result<
    Seq<Seq<char>>,
    Error,
> {
    match lang_offset(r.meta.languages@, lang) {
        None => Err(Error::UnknownLanguage),
        Some(off) => {
            match spec_parse_ip(encode_utf8(addr)) {
                None => Err(Error::BadAddress),
                Some(bin) => {
                    if r.meta.fields@.len() == 0 {
                        Err(Error::EmptySchema)
                    } else {
                        if bin.len() == 4 && !r.meta.spec_v4_enabled() {
                            Err(Error::VersionMismatch)
                        } else if bin.len() != 4 && !r.meta.spec_v6_enabled() {
                            Err(Error::VersionMismatch)
                        } else {
                            let start = if bin.len() == 4 {
                                r.v4offset as int
                            } else {
                                0
                            };
                            match spec_descend(
                                r.data@,
                                r.meta.node_count as int,
                                bin,
                                start,
                                0,
                            ) {
                                Err(e) => Err(e),
                                Ok(leaf) => match spec_resolve(
                                    r.data@,
                                    r.meta.node_count as int,
                                    leaf as int,
                                ) {
                                    Err(e) => Err(e),
                                    Ok(rec) => spec_project(rec, off as nat),
                                },
                            }
                        }
                    }
                },
            }
        },
    }
}

/// What `find_map` returns: the result fields of `spec_find` paired in order
/// with the field names after the same leading-field skip, stopping at the
/// shorter of the two lists.
pub open spec fn spec_find_map(r: Reader, addr: Seq<char>, lang: Seq<char>) -> Result<
    Seq<(Seq<char>, Seq<char>)>,
    Error,
> {
    match spec_find(r, addr, lang) {
        Err(e) => Err(e),
        Ok(vals) => {
            let off = lang_offset(r.meta.languages@, lang).unwrap() as int;
            let names = if off >= r.meta.fields@.len() {
                Seq::<String>::empty()
            } else {
                r.meta.fields@.skip(off)
            };
            let n = if names.len() <= vals.len() {
                names.len()
            } else {
                vals.len()
            };
            Ok(Seq::new(n, |i: int| (names[i]@, vals[i])))
        },
    }
}

/// The views of a name/value pair list.
pub open spec fn pairs_view(s: Seq<(String, String)>) -> Seq<(Seq<char>, Seq<char>)> {
    Seq::new(s.len(), |i: int| (s[i].0@, s[i].1@))
}

/// A loaded database: the buffer after the header, the decoded header, and
/// the precomputed root of the IPv4-mapped subtree.
#[derive(Debug)]
pub struct Reader {
    /// The trie-node area followed by the string-record area.
    pub data: Vec<u8>,
    /// The decoded header.
    pub meta: Meta,
    /// Trie node reached by the fixed 96-bit descent from the root; IPv4
    /// lookups start here instead of at the root.
    pub v4offset: usize,
}

/// Weight of bit `r` within a byte, most significant bit first.
pub open spec fn spec_bit_weight(r: int) -> u8 {
    if r == 0 {
        128
    } else if r == 1 {
        64
    } else if r == 2 {
        32
    } else if r == 3 {
        16
    } else if r == 4 {
        8
    } else if r == 5 {
        4
    } else if r == 6 {
        2
    } else {
        1
    }
}

/// Bit `i` of the address `addr`, most significant bit first in each byte.
pub open spec fn spec_bit(addr: Seq<u8>, i: int) -> int
    recommends
        0 <= i < 8 * addr.len(),
{
    ((addr[i / 8] / spec_bit_weight(i % 8)) % 2) as int
}

/// The bit-by-bit descent from `node` at bit position `i` of `addr`.
///
/// A node value greater than `node_count` is not a node but an encoded leaf
/// and ends the descent at once; running out of address bits on an internal
/// node means no entry covers the address; a child read past the end of the
/// buffer is a bounds failure.
pub open spec fn spec_descend(d: Seq<u8>, nc: int, addr: Seq<u8>, node: int, i: int) -> Result<
    u32,
    Error,
>
    decreases 8 * addr.len() - i,
{
    if node > nc {
        Ok(node as u32)
    } else if i < 0 || i >= 8 * addr.len() {
        Err(Error::NotFound)
    } else {
        let off = node * 8 + spec_bit(addr, i) * 4;
        if node < 0 || off + 4 > d.len() {
            Err(Error::OutOfBounds)
        } else {
            spec_descend(d, nc, addr, spec_be32(d, off) as int, i + 1)
        }
    }
}

/// The fixed 96-bit descent that locates the IPv4-mapped subtree: the first
/// 80 bits go to child 0 and the last 16 to child 1, stopping early once the
/// node index leaves the node table. `None` means a child read fell outside
/// the buffer.
pub open spec fn spec_v4off(d: Seq<u8>, nc: int, node: int, i: int) -> Option<int>
    decreases 96 - i,
{
    if i < 0 || i >= 96 {
        Some(node)
    } else if node >= nc {
        Some(node)
    } else {
        let off = node * 8 + (if i >= 80 {
            4int
        } else {
            0int
        });
        if node < 0 || off + 4 > d.len() {
            None
        } else {
            spec_v4off(d, nc, spec_be32(d, off) as int, i + 1)
        }
    }
}

/// The record bytes that the leaf index `leaf` resolves to: the leaf is
/// re-based from trie-index space to a byte offset into the string area, a
/// 2-byte big-endian length is read there, and that many bytes follow.
pub open spec fn spec_resolve(d: Seq<u8>, nc: int, leaf: int) -> Result<Seq<u8>, Error>
    recommends
        leaf > nc,
        nc >= 0,
{
    let off = leaf - nc + nc * 8;
    if off < 0 || off + 2 > d.len() {
        Err(Error::OutOfBounds)
    } else {
        let l = spec_be16(d, off) as int;
        if off + 2 + l > d.len() {
            Err(Error::OutOfBounds)
        } else {
            Ok(d.subrange(off + 2, off + 2 + l))
        }
    }
}

/// Exactly when loading a buffer succeeds: it holds the 4-byte length
/// prefix, the header bytes it announces, a header that decodes to the five
/// fields with a node count fitting a 4-byte child pointer, a declared
/// payload size that matches the rest of the buffer, and a node table deep
/// enough for the fixed 96-bit descent.
pub open spec fn spec_load_ok(data: Seq<u8>) -> bool {
    &&& data.len() >= 4
    &&& ({
        let h = spec_be32(data, 0) as int;
        &&& 4 + h <= data.len()
        &&& (spec_header(data.subrange(4, 4 + h)) matches Some(hd) && hd.node_count <= u32::MAX
            && 4 + h + hd.total_size == data.len() && spec_v4off(
            data.skip(4 + h),
            hd.node_count as int,
            0,
            0,
        ) is Some)
    })
}

impl Reader {
    /// A loaded database is well-formed: the declared payload size matches
    /// the owned buffer, node indices fit a 4-byte child pointer, and
    /// `v4offset` is exactly what the fixed descent yields on this buffer.
    pub open spec fn wf(self) -> bool {
        &&& self.meta.node_count <= u32::MAX
        &&& self.v4offset <= u32::MAX
        &&& self.meta.total_size == self.data@.len()
        &&& spec_v4off(self.data@, self.meta.node_count as int, 0, 0) == Some(
            self.v4offset as int,
        )
    }

    /// True when this database answers IPv4 queries.
    pub fn is_ipv4(&self) -> (r: bool)
        ensures
            r == self.meta.spec_v4_enabled(),
    {
        self.meta.ip_version % 2 == 1
    }

    /// True when this database answers IPv6 queries.
    pub fn is_ipv6(&self) -> (r: bool)
        ensures
            r == self.meta.spec_v6_enabled(),
    {
        (self.meta.ip_version / 2) % 2 == 1
    }

    /// Reads the 4-byte big-endian child pointer `index` (0 or 1) of trie
    /// node `node`, or fails when the read would pass the buffer's end.
    pub fn read_node(&self, node: usize, index: usize) -> (r: Result<usize, Error>)
        requires
            node <= u32::MAX,
            index <= 1,
        ensures
            r matches Ok(c) ==> node * 8 + index * 4 + 4 <= self.data@.len() && c == spec_be32(
                self.data@,
                node * 8 + index * 4,
            ) as usize && c <= u32::MAX,
            r matches Err(e) ==> e == Error::OutOfBounds && node * 8 + index * 4 + 4
                > self.data@.len(),
    {
        let off64: u64 = (node as u64) * 8 + (index as u64) * 4;
        if off64 + 4 > self.data.len() as u64 {
            return Err(Error::OutOfBounds);
        }
        let off = off64 as usize;
        Ok(read_be32(self.data.as_slice(), off) as usize)
    }

    /// Resolves a leaf index to the record bytes it points at in the string
    /// area, or fails when the offset or the length-prefixed record reaches
    /// past the buffer's end.
    pub fn resolve(&self, node: usize) -> (r: Result<Vec<u8>, Error>)
        requires
            node <= u32::MAX,
            node > self.meta.node_count,
        ensures
            r matches Ok(v) ==> spec_resolve(
                self.data@,
                self.meta.node_count as int,
                node as int,
            ) == Ok::<Seq<u8>, Error>(v@) && v@.len() <= u16::MAX,
            r matches Err(e) ==> spec_resolve(self.data@, self.meta.node_count as int, node as int)
                == Err::<Seq<u8>, Error>(e),
    {
        let nc = self.meta.node_count;
        let off64: u64 = (node as u64) - (nc as u64) + (nc as u64) * 8;
        if off64 + 2 > self.data.len() as u64 {
            return Err(Error::OutOfBounds);
        }
        let off = off64 as usize;
        let l = read_be16(self.data.as_slice(), off) as usize;
        if (off64 + 2) + (l as u64) > self.data.len() as u64 {
            return Err(Error::OutOfBounds);
        }
        let rec = vstd::slice::slice_subrange(self.data.as_slice(), off + 2, off + 2 + l);
        Ok(vstd::slice::slice_to_vec(rec))
    }

    /// Descends the trie bit by bit over the binary address `binary`,
    /// starting at the root for IPv6 or at `v4offset` for a 4-byte address,
    /// and returns the resolved leaf index.
    pub fn find_node(&self, binary: &[u8]) -> (r: Result<usize, Error>)
        requires
            self.wf(),
            binary@.len() == 4 || binary@.len() == 16,
        ensures
            r matches Ok(c) ==> c <= u32::MAX && c > self.meta.node_count && spec_descend(
                self.data@,
                self.meta.node_count as int,
                binary@,
                if binary@.len() == 4 {
                    self.v4offset as int
                } else {
                    0
                },
                0,
            ) == Ok::<u32, Error>(c as u32),
            r matches Err(e) ==> spec_descend(
                self.data@,
                self.meta.node_count as int,
                binary@,
                if binary@.len() == 4 {
                    self.v4offset as int
                } else {
                    0
                },
                0,
            ) == Err::<u32, Error>(e),
    {
        let ghost start: int = if binary@.len() == 4 {
            self.v4offset as int
        } else {
            0
        };
        let mut node: usize = if binary.len() == 4 {
            self.v4offset
        } else {
            0
        };
        let nbits: usize = binary.len() * 8;
        let mut i: usize = 0;
        while i < nbits
            invariant
                self.wf(),
                start == if binary@.len() == 4 {
                    self.v4offset as int
                } else {
                    0
                },
                nbits == 8 * binary@.len(),
                binary@.len() * 8 <= usize::MAX,
                0 <= i <= nbits,
                node <= u32::MAX,
                spec_descend(
                    self.data@,
                    self.meta.node_count as int,
                    binary@,
                    start,
                    0,
                ) == spec_descend(
                    self.data@,
                    self.meta.node_count as int,
                    binary@,
                    node as int,
                    i as int,
                ),
            decreases nbits - i,
        {
            if node > self.meta.node_count {
                return Ok(node);
            }
            let byte = binary[i / 8];
            let w: u8 = match i % 8 {
                0 => 128,
                1 => 64,
                2 => 32,
                3 => 16,
                4 => 8,
                5 => 4,
                6 => 2,
                _ => 1,
            };
            let bit = ((byte / w) % 2) as usize;
            proof {
                assert(w == spec_bit_weight(i as int % 8));
                assert(bit == spec_bit(binary@, i as int));
            }
            match self.read_node(node, bit) {
                Ok(c) => {
                    node = c;
                },
                Err(e) => {
                    return Err(e);
                },
            }
            i = i + 1;
        }
        if node > self.meta.node_count {
            Ok(node)
        } else {
            Err(Error::NotFound)
        }
    }

    /// Parses and checks the database buffer: the 4-byte big-endian header
    /// length, the JSON header, the declared-size integrity invariant, and
    /// the fixed descent that precomputes `v4offset`. Loading succeeds
    /// exactly on the buffers `spec_load_ok` describes; every failure is
    /// `CorruptHeader`; and the header fields of the result are exactly the
    /// values the header bytes encode.
    pub fn from_bytes(data: &[u8]) -> (r: Result<Reader, Error>)
        ensures
            r is Ok <==> spec_load_ok(data@),
            r matches Ok(rd) ==> {
                let h = spec_be32(data@, 0) as int;
                &&& rd.wf()
                &&& data@.len() >= 4
                &&& 4 + h <= data@.len()
                &&& rd.data@ == data@.skip(4 + h)
                &&& 4 + h + rd.meta.total_size == data@.len()
                &&& (spec_header(data@.subrange(4, 4 + h)) matches Some(hd)
                    && rd.meta.total_size == hd.total_size && rd.meta.node_count as int
                    == hd.node_count as int && rd.meta.ip_version == hd.ip_version
                    && pairs_u64_view(rd.meta.languages@) == hd.languages && strings_view(
                    rd.meta.fields@,
                ) == hd.fields)
            },
            r matches Ok(rd) ==> forall|i: int, j: int|
                0 <= i < j < rd.meta.languages@.len() ==> (#[trigger] rd.meta.languages@[i]).0@
                    != (#[trigger] rd.meta.languages@[j]).0@,
            r matches Err(e) ==> e == Error::CorruptHeader,
    {
        if data.len() < 4 {
            return Err(Error::CorruptHeader);
        }
        let h64: u64 = read_be32(data, 0) as u64;
        if 4 + h64 > data.len() as u64 {
            return Err(Error::CorruptHeader);
        }
        let h = h64 as usize;
        let header = vstd::slice::slice_subrange(data, 4, 4 + h);
        let meta = match parse_meta(header) {
            Ok(m) => m,
            Err(_) => {
                return Err(Error::CorruptHeader);
            },
        };
        let body_len: usize = data.len() - 4 - h;
        if meta.total_size != body_len as u64 {
            return Err(Error::CorruptHeader);
        }
        let body = vstd::slice::slice_subrange(data, 4 + h, data.len());
        let buf = vstd::slice::slice_to_vec(body);
        proof {
            assert(buf@ =~= data@.skip(4 + h as int));
            assert(header@ == data@.subrange(4, 4 + h as int));
            assert(spec_load_ok(data@) <==> spec_v4off(
                buf@,
                meta.node_count as int,
                0,
                0,
            ) is Some);
        }
        // The one-time 96-bit descent locating the IPv4-mapped subtree: a
        // fixed constant of the format, ten bytes of zeros then 0xffff.
        let nc = meta.node_count;
        let mut node: usize = 0;
        let mut i: usize = 0;
        while i < 96 && node < nc
            invariant
                nc <= u32::MAX,
                0 <= i <= 96,
                node <= u32::MAX,
                spec_v4off(buf@, nc as int, 0, 0) == spec_v4off(buf@, nc as int, node as int, i as int),
                spec_load_ok(data@) <==> spec_v4off(buf@, nc as int, 0, 0) is Some,
            decreases 96 - i,
        {
            let index: usize = if i >= 80 {
                1
            } else {
                0
            };
            let off64: u64 = (node as u64) * 8 + (index as u64) * 4;
            if off64 + 4 > buf.len() as u64 {
                proof {
                    assert(spec_v4off(buf@, nc as int, node as int, i as int) is None);
                }
                return Err(Error::CorruptHeader);
            }
            node = read_be32(buf.as_slice(), off64 as usize) as usize;
            i = i + 1;
        }
        let rd = Reader { data: buf, meta, v4offset: node };
        proof {
            assert(spec_v4off(buf@, nc as int, node as int, i as int) == Some(node as int));
            assert(rd.wf());
            assert(spec_load_ok(data@));
        }
        Ok(rd)
    }

    /// Loads a database from its complete file contents.
    pub fn load(data: &[u8]) -> (r: Result<Reader, Error>)
        ensures
            r is Ok <==> spec_load_ok(data@),
            r matches Ok(rd) ==> {
                let h = spec_be32(data@, 0) as int;
                &&& rd.wf()
                &&& data@.len() >= 4
                &&& 4 + h <= data@.len()
                &&& rd.data@ == data@.skip(4 + h)
                &&& 4 + h + rd.meta.total_size == data@.len()
                &&& (spec_header(data@.subrange(4, 4 + h)) matches Some(hd)
                    && rd.meta.total_size == hd.total_size && rd.meta.node_count as int
                    == hd.node_count as int && rd.meta.ip_version == hd.ip_version
                    && pairs_u64_view(rd.meta.languages@) == hd.languages && strings_view(
                    rd.meta.fields@,
                ) == hd.fields)
            },
            r matches Ok(rd) ==> forall|i: int, j: int|
                0 <= i < j < rd.meta.languages@.len() ==> (#[trigger] rd.meta.languages@[i]).0@
                    != (#[trigger] rd.meta.languages@[j]).0@,
            r matches Err(e) ==> e == Error::CorruptHeader,
    {
        Reader::from_bytes(data)
    }

    /// Looks an address up under a language: parses the literal, checks the
    /// database's address-family support, descends the trie, resolves the
    /// record and projects its fields past the language's skip.
    pub fn find(&self, addr: &str, language: &str) -> (r: Result<Vec<String>, Error>)
        requires
            self.wf(),
        ensures
            r matches Ok(v) ==> spec_find(*self, addr@, language@) matches Ok(s) && v.deep_view()
                == s,
            r matches Err(e) ==> spec_find(*self, addr@, language@) == Err::<Seq<Seq<char>>, Error>(
                e,
            ),
    {
        let off = match self.meta.find_language(language) {
            None => {
                return Err(Error::UnknownLanguage);
            },
            Some(o) => o,
        };
        let bin = match parse_ip(addr.as_bytes()) {
            None => {
                return Err(Error::BadAddress);
            },
            Some(v) => v,
        };
        if self.meta.fields.len() == 0 {
            return Err(Error::EmptySchema);
        }
        if bin.len() == 4 {
            if !self.is_ipv4() {
                return Err(Error::VersionMismatch);
            }
        } else {
            if !self.is_ipv6() {
                return Err(Error::VersionMismatch);
            }
        }
        let leaf = match self.find_node(bin.as_slice()) {
            Err(e) => {
                return Err(e);
            },
            Ok(n) => n,
        };
        let record = match self.resolve(leaf) {
            Err(e) => {
                return Err(e);
            },
            Ok(v) => v,
        };
        match project(record.as_slice(), off) {
            Err(e) => Err(e),
            Ok(v) => Ok(v),
        }
    }

    /// Looks an address up and pairs each result field with its field name
    /// from the header, both lists taken past the language's skip.
    pub fn find_map(&self, addr: &str, language: &str) -> (r: Result<Vec<(String, String)>, Error>)
        requires
            self.wf(),
        ensures
            r matches Ok(m) ==> spec_find_map(*self, addr@, language@) matches Ok(s) && pairs_view(
                m@,
            ) == s,
            r matches Err(e) ==> spec_find_map(*self, addr@, language@) == Err::<
                Seq<(Seq<char>, Seq<char>)>,
                Error,
            >(e),
    {
        let vals = match self.find(addr, language) {
            Err(e) => {
                return Err(e);
            },
            Ok(v) => v,
        };
        let off64 = match self.meta.find_language(language) {
            None => {
                proof {
                    assert(false);
                }
                return Err(Error::UnknownLanguage);
            },
            Some(o) => o,
        };
        let nfields = self.meta.fields.len();
        let (off_us, navail): (usize, usize) = if off64 >= nfields as u64 {
            (0, 0)
        } else {
            (off64 as usize, nfields - (off64 as usize))
        };
        let n: usize = if navail <= vals.len() {
            navail
        } else {
            vals.len()
        };
        let ghost names = if off64 as int >= self.meta.fields@.len() {
            Seq::<String>::empty()
        } else {
            self.meta.fields@.skip(off64 as int)
        };
        let mut out: Vec<(String, String)> = Vec::new();
        let mut i: usize = 0;
        while i < n
            invariant
                0 <= i <= n,
                n <= vals@.len(),
                n <= names.len(),
                n > 0 ==> off_us == off64 && off_us + n <= self.meta.fields@.len(),
                self.meta.fields@.len() <= usize::MAX,
                names == if off64 as int >= self.meta.fields@.len() {
                    Seq::<String>::empty()
                } else {
                    self.meta.fields@.skip(off64 as int)
                },
                pairs_view(out@) == Seq::new(i as nat, |t: int| (names[t]@, vals.deep_view()[t])),
            decreases n - i,
        {
            let name = self.meta.fields[off_us + i].clone();
            let value = vals[i].clone();
            proof {
                assert(names[i as int] == self.meta.fields@[off_us + i]);
                assert(name@ == names[i as int]@);
                assert(value@ == vals.deep_view()[i as int]);
            }
            let ghost prev_out = out@;
            out.push((name, value));
            proof {
                assert(out@ == prev_out.push((name, value)));
                assert(pairs_view(prev_out).len() == i);
                assert(prev_out.len() == i);
                assert(out@.len() == i + 1);
                assert forall|t: int| 0 <= t < i + 1 implies pairs_view(out@)[t] == (
                    names[t]@,
                    vals.deep_view()[t],
                ) by {
                    if t < i {
                        assert(out@[t] == prev_out[t]);
                        assert(pairs_view(prev_out)[t] == Seq::new(
                            i as nat,
                            |t2: int| (names[t2]@, vals.deep_view()[t2]),
                        )[t]);
                    } else {
                        assert(out@[t] == (name, value));
                    }
                }
                assert(pairs_view(out@) =~= Seq::new(
                    (i + 1) as nat,
                    |t: int| (names[t]@, vals.deep_view()[t]),
                ));
            }
            i = i + 1;
        }
        proof {
            assert(pairs_view(out@) =~= spec_find_map(*self, addr@, language@).unwrap());
        }
        Ok(out)
    }

    /// Looks an address up and shapes the result as a city-level view.
    pub fn find_city_info(&self, addr: &str, language: &str) -> (r: Result<CityInfo, Error>)
        requires
            self.wf(),
        ensures
            r matches Ok(c) ==> spec_find(*self, addr@, language@) matches Ok(s)
                && c.country_name@ == spec_field(s, 0) && c.region_name@ == spec_field(s, 1)
                && c.city_name@ == spec_field(s, 2) && c.owner_domain@ == spec_field(s, 3)
                && c.isp_domain@ == spec_field(s, 4) && c.latitude@ == spec_field(s, 5)
                && c.longitude@ == spec_field(s, 6) && c.timezone@ == spec_field(s, 7)
                && c.utc_offset@ == spec_field(s, 8) && c.china_admin_code@ == spec_field(s, 9)
                && c.idd_code@ == spec_field(s, 10) && c.country_code@ == spec_field(s, 11)
                && c.continent_code@ == spec_field(s, 12),
            r matches Err(e) ==> spec_find(*self, addr@, language@) == Err::<Seq<Seq<char>>, Error>(
                e,
            ),
    {
        match self.find(addr, language) {
            Ok(v) => Ok(CityInfo::from_fields(&v)),
            Err(e) => Err(e),
        }
    }

    /// Looks an address up and shapes the result as a district-level view.
    pub fn find_district_info(&self, addr: &str, language: &str) -> (r: Result<DistrictInfo, Error>)
        requires
            self.wf(),
        ensures
            r matches Ok(c) ==> spec_find(*self, addr@, language@) matches Ok(s)
                && c.country_name@ == spec_field(s, 0) && c.region_name@ == spec_field(s, 1)
                && c.city_name@ == spec_field(s, 2) && c.district_name@ == spec_field(s, 3)
                && c.china_admin_code@ == spec_field(s, 4) && c.covering_radius@ == spec_field(
                s,
                5,
            ) && c.latitude@ == spec_field(s, 6) && c.longitude@ == spec_field(s, 7),
            r matches Err(e) ==> spec_find(*self, addr@, language@) == Err::<Seq<Seq<char>>, Error>(
                e,
            ),
    {
        match self.find(addr, language) {
            Ok(v) => Ok(DistrictInfo::from_fields(&v)),
            Err(e) => Err(e),
        }
    }

    /// Looks an address up and shapes the result as a data-center view.
    pub fn find_idc_info(&self, addr: &str, language: &str) -> (r: Result<IdcInfo, Error>)
        requires
            self.wf(),
        ensures
            r matches Ok(c) ==> spec_find(*self, addr@, language@) matches Ok(s)
                && c.country_name@ == spec_field(s, 0) && c.region_name@ == spec_field(s, 1)
                && c.city_name@ == spec_field(s, 2) && c.owner_domain@ == spec_field(s, 3)
                && c.isp_domain@ == spec_field(s, 4) && c.idc@ == spec_field(s, 5),
            r matches Err(e) ==> spec_find(*self, addr@, language@) == Err::<Seq<Seq<char>>, Error>(
                e,
            ),
    {
        match self.find(addr, language) {
            Ok(v) => Ok(IdcInfo::from_fields(&v)),
            Err(e) => Err(e),
        }
    }

    /// Looks an address up and shapes the result as a base-station view.
    pub fn find_base_station_info(&self, addr: &str, language: &str) -> (r: Result<
        BaseStationInfo,
        Error,
    >)
        requires
            self.wf(),
        ensures
            r matches Ok(c) ==> spec_find(*self, addr@, language@) matches Ok(s)
                && c.country_name@ == spec_field(s, 0) && c.region_name@ == spec_field(s, 1)
                && c.city_name@ == spec_field(s, 2) && c.owner_domain@ == spec_field(s, 3)
                && c.isp_domain@ == spec_field(s, 4) && c.base_station@ == spec_field(s, 5),
            r matches Err(e) ==> spec_find(*self, addr@, language@) == Err::<Seq<Seq<char>>, Error>(
                e,
            ),
    {
        match self.find(addr, language) {
            Ok(v) => Ok(BaseStationInfo::from_fields(&v)),
            Err(e) => Err(e),
        }
    }
}

} // verus!

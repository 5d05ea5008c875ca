//! The metadata header: its decoded form and the verified extraction of its
//! fields from the JSON document at the front of the database buffer.

use vstd::prelude::*;

use crate::err::Error;
use crate::json::{
    json_strings, json_strings_of, json_u64, json_u64_of, json_u64_pairs, json_u64_pairs_of,
    pairs_u64_view, strings_view,
};

verus! {

/// The five header fields as the JSON document under the length prefix
/// encodes them, over plain mathematical values.
pub struct HeaderFields {
    pub total_size: u64,
    pub node_count: u64,
    pub ip_version: u64,
    pub languages: Seq<(Seq<char>, u64)>,
    pub fields: Seq<Seq<char>>,
}

/// What the header bytes decode to: the five fields of the JSON object, or
/// `None` when any of them is missing or of the wrong shape.
pub open spec fn spec_header(b: Seq<u8>) -> Option<HeaderFields> {
    match (json_u64_of(b, "total_size"@), json_u64_of(b, "node_count"@), json_u64_of(
        b,
        "ip_version"@,
    )) {
        (Some(ts), Some(nc), Some(ipv)) => match (json_u64_pairs_of(b, "languages"@), json_strings_of(
            b,
            "fields"@,
        )) {
            (Some(ls), Some(fs)) => Some(
                HeaderFields {
                    total_size: ts,
                    node_count: nc,
                    ip_version: ipv,
                    languages: ls,
                    fields: fs,
                },
            ),
            _ => None,
        },
        _ => None,
    }
}

/// The decoded header of a database.
///
/// `ip_version` is a bitmask: its lowest bit enables IPv4 queries, the next
/// bit IPv6 queries. `languages` maps a language code to the number of leading
/// record fields to skip for that language. `fields` names each record field
/// in order.
#[derive(Debug)]
pub struct Meta {
    /// Declared byte length of everything after the header.
    pub total_size: u64,
    /// Number of trie nodes at the front of the post-header buffer.
    pub node_count: usize,
    /// Bitmask of the address families this database answers for.
    pub ip_version: u64,
    /// Language code and leading-field skip, one entry per language.
    pub languages: Vec<(String, u64)>,
    /// Ordered names of the record fields.
    pub fields: Vec<String>,
}

/// The skip offset of the first entry of `langs` whose code reads `l`, if any.
pub open spec fn lang_offset(langs: Seq<(String, u64)>, l: Seq<char>) -> Option<u64>
    decreases langs.len(),
{
    if langs.len() == 0 {
        None
    } else if langs[0].0@ == l {
        Some(langs[0].1)
    } else {
        lang_offset(langs.skip(1), l)
    }
}

/// `lang_offset` returns the first matching entry.
pub proof fn lemma_lang_offset_at(langs: Seq<(String, u64)>, l: Seq<char>, k: int)
    requires
        0 <= k <= langs.len(),
        forall|t: int| 0 <= t < k ==> (#[trigger] langs[t]).0@ != l,
        k < langs.len() ==> langs[k].0@ == l,
    ensures
        k < langs.len() ==> lang_offset(langs, l) == Some(langs[k].1),
        k == langs.len() ==> lang_offset(langs, l) is None,
    decreases langs.len(),
{
    if langs.len() > 0 && k > 0 {
        let t = langs.skip(1);
        assert(langs[0].0@ != l);
        assert(forall|i: int| 0 <= i < k - 1 ==> (#[trigger] t[i]).0@ != l);
        lemma_lang_offset_at(t, l, k - 1);
    }
}

impl Meta {
    /// Looks the language code up and returns its leading-field skip.
    pub fn find_language(&self, l: &str) -> (r: Option<u64>)
        ensures
            r == lang_offset(self.languages@, l@),
    {
        let lo: String = l.to_owned();
        let n = self.languages.len();
        let mut i: usize = 0;
        while i < n
            invariant
                n == self.languages@.len(),
                0 <= i <= n,
                lo@ == l@,
                forall|t: int| 0 <= t < i ==> (#[trigger] self.languages@[t]).0@ != l@,
            decreases n - i,
        {
            if self.languages[i].0 == lo {
                proof {
                    lemma_lang_offset_at(self.languages@, l@, i as int);
                }
                return Some(self.languages[i].1);
            }
            i = i + 1;
        }
        proof {
            lemma_lang_offset_at(self.languages@, l@, n as int);
        }
        None
    }

    /// True when the lowest bit of `ip_version` is set: IPv4 queries enabled.
    pub open spec fn spec_v4_enabled(self) -> bool {
        self.ip_version % 2 == 1
    }

    /// True when the second-lowest bit of `ip_version` is set: IPv6 enabled.
    pub open spec fn spec_v6_enabled(self) -> bool {
        (self.ip_version / 2) % 2 == 1
    }
}

/// Decodes the JSON header bytes into a `Meta`.
///
/// Succeeds exactly when the five header fields are present with their
/// expected JSON shapes and the node count fits a 4-byte child pointer;
/// anything else in the document is ignored. On success the returned `Meta`
/// carries exactly the decoded values, so re-reading the header fields of a
/// loaded database yields what the buffer encodes.
pub fn parse_meta(header: &[u8]) -> (r: Result<Meta, Error>)
    ensures
        r is Ok <==> (spec_header(header@) matches Some(h) && h.node_count <= u32::MAX),
        r matches Ok(m) ==> (spec_header(header@) matches Some(h) && m.total_size == h.total_size
            && m.node_count as int == h.node_count as int && m.ip_version == h.ip_version
            && pairs_u64_view(m.languages@) == h.languages && strings_view(m.fields@) == h.fields
            && m.node_count <= u32::MAX),
        r matches Ok(m) ==> forall|i: int, j: int|
            0 <= i < j < m.languages@.len() ==> (#[trigger] m.languages@[i]).0@ != (
            #[trigger] m.languages@[j]).0@,
        r matches Err(e) ==> e == Error::CorruptHeader,
{
    let total_size = match json_u64(header, "total_size") {
        Some(n) => n,
        None => {
            return Err(Error::CorruptHeader);
        },
    };
    let node_count_raw = match json_u64(header, "node_count") {
        Some(n) => n,
        None => {
            return Err(Error::CorruptHeader);
        },
    };
    let ip_version = match json_u64(header, "ip_version") {
        Some(n) => n,
        None => {
            return Err(Error::CorruptHeader);
        },
    };
    let languages = match json_u64_pairs(header, "languages") {
        Some(v) => v,
        None => {
            return Err(Error::CorruptHeader);
        },
    };
    let fields = match json_strings(header, "fields") {
        Some(v) => v,
        None => {
            return Err(Error::CorruptHeader);
        },
    };
    if node_count_raw > 0xFFFF_FFFF {
        return Err(Error::CorruptHeader);
    }
    let node_count = node_count_raw as usize;
    Ok(Meta { total_size, node_count, ip_version, languages, fields })
}

} // verus!

use ipdb::Reader;
use ipdb::Error;

// Builds a database whose trie covers 1.2.3.0/24 under the IPv4-mapped
// subtree, with one record. Node layout:
//   0            root: child0 = 0 (self), child1 = 1
//   1..=15       chain taken by the last 16 steps of the 96-bit descent
//   16..=39      the 24-bit path for 1.2.3; wrong turns go to the dead node
//   40           dead node: both children point back to itself
// The leaf value 42 resolves to offset 329, one byte past the node area's
// 328 bytes plus a padding byte.
fn build_db(header: &str, record: &[u8], truncate_to: Option<usize>) -> Vec<u8> {
    let mut nodes: Vec<[u32; 2]> = vec![[0, 0]; 41];
    nodes[0] = [0, 1];
    for j in 1..=15u32 {
        nodes[j as usize] = [40, j + 1];
    }
    let path: [u8; 3] = [1, 2, 3];
    for k in 0..24usize {
        let byte = path[k / 8];
        let bit = (byte >> (7 - (k % 8))) & 1;
        let next: u32 = if k == 23 { 42 } else { 17 + k as u32 };
        let mut n = [40u32, 40u32];
        n[bit as usize] = next;
        nodes[16 + k] = n;
    }
    nodes[40] = [40, 40];

    let mut body: Vec<u8> = Vec::new();
    for n in &nodes {
        body.extend_from_slice(&n[0].to_be_bytes());
        body.extend_from_slice(&n[1].to_be_bytes());
    }
    body.push(0); // padding so that leaf 42 lands exactly on the record
    body.extend_from_slice(&(record.len() as u16).to_be_bytes());
    body.extend_from_slice(record);
    if let Some(t) = truncate_to {
        body.truncate(t);
    }

    let header_bytes = header.as_bytes();
    let mut buf: Vec<u8> = Vec::new();
    buf.extend_from_slice(&(header_bytes.len() as u32).to_be_bytes());
    buf.extend_from_slice(header_bytes);
    buf.extend_from_slice(&body);
    buf
}

fn v4_header(total: usize, ip_version: u32, languages: &str, fields: &str) -> String {
    format!(
        "{{\"node_count\":41,\"total_size\":{},\"ip_version\":{},\"languages\":{},\"fields\":{}}}",
        total, ip_version, languages, fields
    )
}

const RECORD: &[u8] = b"China\tBeijing\tBeijing";

fn standard_db() -> Vec<u8> {
    let total = 41 * 8 + 1 + 2 + RECORD.len();
    build_db(
        &v4_header(total, 1, "{\"CN\":0}", "[\"country\",\"region\",\"city\"]"),
        RECORD,
        None,
    )
}

#[test]
fn finds_covered_address() {
    let db = standard_db();
    let r = Reader::load(&db).unwrap();
    let fields = r.find("1.2.3.4", "CN").unwrap();
    assert_eq!(fields, vec!["China", "Beijing", "Beijing"]);
}

#[test]
fn multibyte_record_decodes() {
    let record = "中国\t北京\t北京".as_bytes();
    let total = 41 * 8 + 1 + 2 + record.len();
    let db = build_db(
        &v4_header(total, 1, "{\"CN\":0}", "[\"country\",\"region\",\"city\"]"),
        record,
        None,
    );
    let r = Reader::load(&db).unwrap();
    let fields = r.find("1.2.3.4", "CN").unwrap();
    assert_eq!(fields, vec!["中国", "北京", "北京"]);
}

#[test]
fn find_is_deterministic() {
    let db = standard_db();
    let r = Reader::load(&db).unwrap();
    let a = r.find("1.2.3.4", "CN").unwrap();
    let b = r.find("1.2.3.4", "CN").unwrap();
    assert_eq!(a, b);
}

#[test]
fn unknown_language_fails_before_address_checks() {
    let db = standard_db();
    let r = Reader::load(&db).unwrap();
    assert_eq!(r.find("1.2.3.4", "EN").unwrap_err(), Error::UnknownLanguage);
    // Even a malformed address reports the unknown language first.
    assert_eq!(r.find("not-an-ip", "EN").unwrap_err(), Error::UnknownLanguage);
}

#[test]
fn version_mismatch_for_ipv6_query_on_ipv4_db() {
    let db = standard_db();
    let r = Reader::load(&db).unwrap();
    assert_eq!(r.find("::1", "CN").unwrap_err(), Error::VersionMismatch);
    assert_eq!(r.find("1:2:3:4:5:6:7:8", "CN").unwrap_err(), Error::VersionMismatch);
    assert_eq!(r.find("::ffff:1.2.3.4", "CN").unwrap_err(), Error::VersionMismatch);
}

#[test]
fn ipv6_literal_shapes() {
    // On an IPv4-only database a literal that parses as IPv6 reports
    // VersionMismatch; one that parses as nothing reports BadAddress.
    let db = standard_db();
    let r = Reader::load(&db).unwrap();
    for good in ["::", "::1", "1::", "fe80::1", "1:2:3:4:5:6:7::", "a:b:c:d:e:f:1.2.3.4",
        "AB:0:0:0:0:0:0:cd"] {
        assert_eq!(r.find(good, "CN").unwrap_err(), Error::VersionMismatch, "addr {:?}", good);
    }
    for bad in ["1:2:3:4:5:6:7", "1:2:3:4:5:6:7:8:9", "g::", "1.2.3.4::", "::1.2.3.4.5",
        "1:2:3:4:5:6:7:8::", "12345::", ":1::2"] {
        assert_eq!(r.find(bad, "CN").unwrap_err(), Error::BadAddress, "addr {:?}", bad);
    }
}

#[test]
fn uncovered_address_is_not_found() {
    let db = standard_db();
    let r = Reader::load(&db).unwrap();
    assert_eq!(r.find("8.8.8.8", "CN").unwrap_err(), Error::NotFound);
}

#[test]
fn bad_address_literals_are_rejected() {
    let db = standard_db();
    let r = Reader::load(&db).unwrap();
    for addr in ["", "foo", "1.2.3", "1.2.3.4.5", "1.2.3.256", "01.2.3.4", ":::", "1::2::3", "12345::"] {
        assert_eq!(r.find(addr, "CN").unwrap_err(), Error::BadAddress, "addr {:?}", addr);
    }
}

#[test]
fn language_offset_skips_leading_fields() {
    let total = 41 * 8 + 1 + 2 + RECORD.len();
    let db = build_db(
        &v4_header(total, 1, "{\"CN\":1}", "[\"country\",\"region\",\"city\"]"),
        RECORD,
        None,
    );
    let r = Reader::load(&db).unwrap();
    let fields = r.find("1.2.3.4", "CN").unwrap();
    assert_eq!(fields, vec!["Beijing", "Beijing"]);
}

#[test]
fn header_round_trip() {
    let db = standard_db();
    let r = Reader::load(&db).unwrap();
    let total = (41 * 8 + 1 + 2 + RECORD.len()) as u64;
    assert_eq!(r.meta.total_size, total);
    assert_eq!(r.meta.node_count, 41);
    assert_eq!(r.meta.ip_version, 1);
    assert_eq!(r.meta.languages, vec![("CN".to_string(), 0)]);
    assert_eq!(
        r.meta.fields,
        vec!["country".to_string(), "region".to_string(), "city".to_string()]
    );
    assert!(r.is_ipv4());
    assert!(!r.is_ipv6());
}

#[test]
fn truncated_record_is_out_of_bounds() {
    // Same trie, but the body stops right after the padding byte: the
    // record's length prefix would cross the end of the buffer.
    let total = 41 * 8 + 1 + 1;
    let db = build_db(
        &v4_header(total, 1, "{\"CN\":0}", "[\"country\",\"region\",\"city\"]"),
        RECORD,
        Some(total),
    );
    let r = Reader::load(&db).unwrap();
    assert_eq!(r.find("1.2.3.4", "CN").unwrap_err(), Error::OutOfBounds);
}

#[test]
fn record_cut_short_is_out_of_bounds() {
    // The length prefix promises more bytes than the buffer holds.
    let total = 41 * 8 + 1 + 2 + RECORD.len() - 1;
    let db = build_db(
        &v4_header(total, 1, "{\"CN\":0}", "[\"country\",\"region\",\"city\"]"),
        RECORD,
        Some(total),
    );
    let r = Reader::load(&db).unwrap();
    assert_eq!(r.find("1.2.3.4", "CN").unwrap_err(), Error::OutOfBounds);
}

#[test]
fn empty_schema_is_rejected() {
    let total = 41 * 8 + 1 + 2 + RECORD.len();
    let db = build_db(&v4_header(total, 1, "{\"CN\":0}", "[]"), RECORD, None);
    let r = Reader::load(&db).unwrap();
    assert_eq!(r.find("1.2.3.4", "CN").unwrap_err(), Error::EmptySchema);
}

#[test]
fn bad_address_beats_empty_schema() {
    // The address is parsed before the schema is consulted: an unparsable
    // literal reports BadAddress even when the header declares no fields.
    let total = 41 * 8 + 1 + 2 + RECORD.len();
    let db = build_db(&v4_header(total, 1, "{\"CN\":0}", "[]"), RECORD, None);
    let r = Reader::load(&db).unwrap();
    assert_eq!(r.find("not-an-ip", "CN").unwrap_err(), Error::BadAddress);
}

#[test]
fn invalid_utf8_record_is_rejected() {
    let record: &[u8] = &[0xFF, 0xFE, 9, 65];
    let total = 41 * 8 + 1 + 2 + record.len();
    let db = build_db(
        &v4_header(total, 1, "{\"CN\":0}", "[\"country\",\"region\",\"city\"]"),
        record,
        None,
    );
    let r = Reader::load(&db).unwrap();
    assert_eq!(r.find("1.2.3.4", "CN").unwrap_err(), Error::InvalidEncoding);
}

#[test]
fn corrupt_headers_fail_to_load() {
    assert_eq!(Reader::load(&[]).unwrap_err(), Error::CorruptHeader);
    assert_eq!(Reader::load(&[0, 0]).unwrap_err(), Error::CorruptHeader);
    // Header length pointing past the end of the buffer.
    assert_eq!(Reader::load(&[0, 0, 0, 99, 1, 2]).unwrap_err(), Error::CorruptHeader);
    // Not JSON at all.
    let mut buf = vec![0, 0, 0, 3];
    buf.extend_from_slice(b"abc");
    assert_eq!(Reader::load(&buf).unwrap_err(), Error::CorruptHeader);
    // Declared size disagrees with the buffer.
    let total = 41 * 8 + 1 + 2 + RECORD.len();
    let mut db = build_db(
        &v4_header(total, 1, "{\"CN\":0}", "[\"country\",\"region\",\"city\"]"),
        RECORD,
        None,
    );
    db.push(0);
    assert_eq!(Reader::load(&db).unwrap_err(), Error::CorruptHeader);
}

#[test]
fn missing_header_field_fails_to_load() {
    let header = "{\"node_count\":41,\"total_size\":10,\"ip_version\":1}";
    let mut buf = Vec::new();
    buf.extend_from_slice(&(header.len() as u32).to_be_bytes());
    buf.extend_from_slice(header.as_bytes());
    buf.extend_from_slice(&[0u8; 10]);
    assert_eq!(Reader::load(&buf).unwrap_err(), Error::CorruptHeader);
}

#[test]
fn find_map_pairs_names_with_values() {
    let db = standard_db();
    let r = Reader::load(&db).unwrap();
    let m = r.find_map("1.2.3.4", "CN").unwrap();
    assert_eq!(
        m,
        vec![
            ("country".to_string(), "China".to_string()),
            ("region".to_string(), "Beijing".to_string()),
            ("city".to_string(), "Beijing".to_string()),
        ]
    );
}

#[test]
fn find_map_applies_skip_to_names_too() {
    let total = 41 * 8 + 1 + 2 + RECORD.len();
    let db = build_db(
        &v4_header(total, 1, "{\"CN\":1}", "[\"country\",\"region\",\"city\"]"),
        RECORD,
        None,
    );
    let r = Reader::load(&db).unwrap();
    let m = r.find_map("1.2.3.4", "CN").unwrap();
    assert_eq!(
        m,
        vec![
            ("region".to_string(), "Beijing".to_string()),
            ("city".to_string(), "Beijing".to_string()),
        ]
    );
}

#[test]
fn fixed_schema_views_default_missing_fields_to_empty() {
    let db = standard_db();
    let r = Reader::load(&db).unwrap();
    let b = r.find_base_station_info("1.2.3.4", "CN").unwrap();
    assert_eq!(b.country_name, "China");
    assert_eq!(b.region_name, "Beijing");
    assert_eq!(b.city_name, "Beijing");
    assert_eq!(b.owner_domain, "");
    assert_eq!(b.isp_domain, "");
    assert_eq!(b.base_station, "");
    let i = r.find_idc_info("1.2.3.4", "CN").unwrap();
    assert_eq!(i.country_name, "China");
    assert_eq!(i.idc, "");
    let c = r.find_city_info("1.2.3.4", "CN").unwrap();
    assert_eq!(c.country_name, "China");
    assert_eq!(c.region_name, "Beijing");
    assert_eq!(c.city_name, "Beijing");
    assert_eq!(c.continent_code, "");
    let d = r.find_district_info("1.2.3.4", "CN").unwrap();
    assert_eq!(d.country_name, "China");
    assert_eq!(d.district_name, "");
}

#[test]
fn ipv6_mapped_lookup_reaches_same_record() {
    // With both families enabled, a full 128-bit descent through the
    // IPv4-mapped prefix (80 zero bits, 16 one bits) reaches the same leaf.
    let total = 41 * 8 + 1 + 2 + RECORD.len();
    let db = build_db(
        &v4_header(total, 3, "{\"CN\":0}", "[\"country\",\"region\",\"city\"]"),
        RECORD,
        None,
    );
    let r = Reader::load(&db).unwrap();
    assert!(r.is_ipv4());
    assert!(r.is_ipv6());
    let fields = r.find("::ffff:1.2.3.4", "CN").unwrap();
    assert_eq!(fields, vec!["China", "Beijing", "Beijing"]);
    assert_eq!(r.find("::", "CN").unwrap_err(), Error::NotFound);
}

#[test]
fn error_text_names_each_kind() {
    assert_eq!(Error::CorruptHeader.as_text(), "corrupt header");
    assert_eq!(Error::OutOfBounds.as_text(), "out of bounds");
    assert_eq!(Error::InvalidEncoding.as_text(), "invalid encoding");
    assert_eq!(Error::BadAddress.as_text(), "bad address");
    assert_eq!(Error::VersionMismatch.as_text(), "version mismatch");
    assert_eq!(Error::UnknownLanguage.as_text(), "unknown language");
    assert_eq!(Error::EmptySchema.as_text(), "empty schema");
    assert_eq!(Error::NotFound.as_text(), "not found");
}

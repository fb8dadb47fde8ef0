//! Reading SSDP answers from TVs on the local network.
//!
//! The multicast probe and the reading of answers happen outside; these functions decide
//! which answers come from Samsung TVs and what they say about them.
use vstd::prelude::*;
use vstd::utf8::{decode_utf8, encode_utf8, is_ascii_chars, is_char_boundary};
use crate::error::opt_view;
use crate::text::{
    chars_contain, chars_find, chars_of, chars_rfind, chars_start_with, contains, find_sub_from,
    last_index_before, lemma_find_sub_bounds, lemma_last_index_bounds, lines, lowercase, owned,
    push_str, slice_chars,
    seqs_of, split_lines, starts_with, string_from_chars, to_lowercase, trim, trim_chars, compare_strs,
    lemma_lex_transitive, lemma_lex_trichotomy, lex_lt, ascii_lowercase, ascii_lower_char,
    lemma_lines_ascii, lemma_trim_ascii,
};

verus! {

broadcast use vstd::string::group_string_axioms, vstd::utf8::encode_utf8_decode_utf8,
    vstd::slice::group_slice_axioms;

/// Where SSDP searches are sent.
pub const SSDP_MULTICAST: &'static str = "239.255.255.250:1900";

/// The SSDP search for Samsung remote-control receivers.
pub const M_SEARCH_SAMSUNG: &'static str = "M-SEARCH * HTTP/1.1\r\nHOST: 239.255.255.250:1900\r\nMAN: \"ssdp:discover\"\r\nMX: 3\r\nST: urn:samsung.com:device:RemoteControlReceiver:1\r\n\r\n";

/// The SSDP search for every device.
pub const M_SEARCH_ALL: &'static str = "M-SEARCH * HTTP/1.1\r\nHOST: 239.255.255.250:1900\r\nMAN: \"ssdp:discover\"\r\nMX: 3\r\nST: ssdp:all\r\n\r\n";

/// Whether an SSDP answer comes from a Samsung TV: its lower-case text mentions
/// `samsung`, `sec_` or `remotecontrolreceiver`.
pub open spec fn is_samsung_answer(response: Seq<char>) -> bool {
    let l = lowercase(response);
    contains(l, "samsung"@) || contains(l, "sec_"@) || contains(l, "remotecontrolreceiver"@)
}

/// Whether an SSDP answer comes from a Samsung TV.
pub fn is_samsung_tv(response: &str) -> (b: bool)
    ensures
        b == is_samsung_answer(response@),
{
    let lower = to_lowercase(response);
    let l = chars_of(lower.as_str());
    let a = chars_of("samsung");
    let b = chars_of("sec_");
    let c = chars_of("remotecontrolreceiver");
    chars_contain(&l, &a) || chars_contain(&l, &b) || chars_contain(&l, &c)
}

/// The characters of `t` after its first `n` bytes of UTF-8.
pub open spec fn byte_tail(t: Seq<char>, n: int) -> Seq<char> {
    decode_utf8(encode_utf8(t).subrange(n, encode_utf8(t).len() as int))
}

/// What a header line yields: when its lower-case form starts with `prefix` (the header's
/// lower-case name and a colon), the trimmed rest of the line after as many bytes as the
/// prefix has.
pub open spec fn line_value(line: Seq<char>, prefix: Seq<char>) -> Option<Seq<char>> {
    let t = trim(line);
    if starts_with(lowercase(t), prefix) {
        Some(trim(byte_tail(t, encode_utf8(prefix).len() as int)))
    } else {
        None
    }
}

/// The first non-empty value of the header among the lines.
pub open spec fn scan_header(lines: Seq<Seq<char>>, prefix: Seq<char>) -> Option<Seq<char>>
    decreases lines.len(),
{
    if lines.len() == 0 {
        None
    } else {
        match line_value(lines[0], prefix) {
            Some(v) => if v.len() > 0 {
                Some(v)
            } else {
                scan_header(lines.drop_first(), prefix)
            },
            None => scan_header(lines.drop_first(), prefix),
        }
    }
}

/// Whether the scan for a header can cut each matching line where the prefix ends: the
/// cut must fall between two characters. (Cutting a string elsewhere is an error.)
pub open spec fn scan_defined(lines: Seq<Seq<char>>, prefix: Seq<char>) -> bool
    decreases lines.len(),
{
    if lines.len() == 0 {
        true
    } else {
        let t = trim(lines[0]);
        if starts_with(lowercase(t), prefix) {
            is_char_boundary(encode_utf8(t), encode_utf8(prefix).len() as int) && (
            line_value(lines[0], prefix).unwrap().len() > 0 || scan_defined(lines.drop_first(), prefix))
        } else {
            scan_defined(lines.drop_first(), prefix)
        }
    }
}

/// The prefix that marks a header line: the lower-case header name and a colon.
pub open spec fn header_prefix(header: Seq<char>) -> Seq<char> {
    lowercase(header) + ":"@
}

/// The value of a header in an SSDP answer: the first line whose trimmed, lower-case text
/// starts with the header's name and a colon, and whose remainder is not blank.
pub open spec fn header_value(response: Seq<char>, header: Seq<char>) -> Option<Seq<char>> {
    scan_header(split_lines(response), header_prefix(header))
}

/// Whether reading `header` from `response` is defined (see `scan_defined`).
pub open spec fn header_readable(response: Seq<char>, header: Seq<char>) -> bool {
    scan_defined(split_lines(response), header_prefix(header))
}

/// In a trimmed ASCII line whose lower-case form starts with the prefix, the prefix ends
/// on a character boundary.
proof fn lemma_ascii_cut(line: Seq<char>, lower: Seq<char>, prefix: Seq<char>, plen: int)
    requires
        is_ascii_chars(line),
        lower == ascii_lowercase(line),
        starts_with(lower, prefix),
        plen == encode_utf8(prefix).len(),
    ensures
        is_char_boundary(encode_utf8(line), plen),
{
    assert forall|i: int| 0 <= i < prefix.len() implies '\0' <= #[trigger] prefix[i] <= '\u{7f}' by {
        assert(prefix[i] == lower[i]);
        assert(lower[i] == ascii_lower_char(line[i]));
        vstd::utf8::char_u32_cast(line[i], line[i] as u32);
        if 'A' <= line[i] && line[i] <= 'Z' {
            assert(line[i] as u32 + 32 <= 0x7f);
        }
    }
    vstd::utf8::is_ascii_chars_encode_utf8(prefix);
    vstd::utf8::is_ascii_chars_encode_utf8(line);
    let bytes = encode_utf8(line);
    vstd::utf8::encode_utf8_valid_utf8(line);
    if plen == bytes.len() {
        vstd::utf8::is_char_boundary_start_end_of_seq(bytes);
    } else {
        assert(line[plen] as u8 == bytes[plen]);
        vstd::utf8::is_char_boundary_iff_not_is_continuation_byte(bytes, plen);
    }
}

/// Reads a header, or `None` when a matching line cannot be cut where its prefix ends.
fn try_extract_header(response: &str, header: &str) -> (r: Option<Option<String>>)
    ensures
        r is Some <==> header_readable(response@, header@),
        r matches Some(v) ==> opt_view(v) == header_value(response@, header@),
        is_ascii_chars(response@) ==> r is Some,
{
    let mut prefix = to_lowercase(header);
    push_str(&mut prefix, ":");
    let ghost pv = prefix@;
    let plen = prefix.as_str().as_bytes().len();
    let pchars = chars_of(prefix.as_str());
    let rc = chars_of(response);
    let ls = lines(&rc);
    let ghost all = seqs_of(ls@);
    let mut i: usize = 0;
    assert(all.skip(0) == all);
    proof {
        if is_ascii_chars(response@) {
            lemma_lines_ascii(response@, 0);
        }
    }
    while i < ls.len()
        invariant
            is_ascii_chars(response@) ==> forall|k: int| 0 <= k < all.len() ==> is_ascii_chars(
                #[trigger] all[k],
            ),
            pv == header_prefix(header@),
            pchars@ == pv,
            plen == encode_utf8(pv).len(),
            all == seqs_of(ls@),
            all == split_lines(response@),
            i <= ls@.len(),
            scan_header(all, pv) == scan_header(all.skip(i as int), pv),
            scan_defined(all, pv) == scan_defined(all.skip(i as int), pv),
        decreases ls@.len() - i,
    {
        let ghost rest = all.skip(i as int);
        assert(rest.drop_first() == all.skip(i + 1));
        assert(rest[0] == ls@[i as int]@);
        let tc = trim_chars(ls[i].as_slice());
        let t = string_from_chars(&tc);
        proof {
            if is_ascii_chars(response@) {
                assert(ls@[i as int]@ == all[i as int]);
                lemma_trim_ascii(all[i as int]);
            }
        }
        let lower = to_lowercase(t.as_str());
        let lc = chars_of(lower.as_str());
        if chars_start_with(&lc, &pchars) {
            let ts = t.as_str();
            proof {
                if is_ascii_chars(response@) {
                    lemma_ascii_cut(t@, lc@, pv, plen as int);
                }
            }
            if !ts.is_char_boundary(plen) {
                return None;
            }
            let (_, tail) = ts.split_at(plen);
            assert(tail@ == byte_tail(t@, plen as int)) by {
                assert(decode_utf8(encode_utf8(tail@)) == tail@);
            }
            let tail_chars = chars_of(tail);
            let v = trim_chars(&tail_chars);
            if v.len() > 0 {
                return Some(Some(string_from_chars(&v)));
            }
        }
        i += 1;
    }
    Some(None)
}

/// The value of `header` in an SSDP answer. An ASCII answer can always be read; any other
/// must have its matching lines cut where the prefix ends (`header_readable`).
pub fn extract_header(response: &str, header: &str) -> (r: Option<String>)
    requires
        is_ascii_chars(response@) || header_readable(response@, header@),
    ensures
        opt_view(r) == header_value(response@, header@),
{
    match try_extract_header(response, header) {
        Some(v) => v,
        None => None,
    }
}

/// Whether `header` can be read from `response` (see `scan_defined`).
pub fn can_read_header(response: &str, header: &str) -> (b: bool)
    ensures
        b == header_readable(response@, header@),
        is_ascii_chars(response@) ==> b,
{
    try_extract_header(response, header).is_some()
}

} // verus!

verus! {

/// The model name a device description URL gives: the last path segment before the
/// first `.xml`, when there is one and it is not empty (for
/// `http://192.168.1.100:9197/dmr/SamsungMRDesc.xml` it is `SamsungMRDesc`).
pub open spec fn model_from_location(loc: Seq<char>) -> Option<Seq<char>> {
    match find_sub_from(loc, ".xml"@, 0) {
        None => None,
        Some(k) => match last_index_before(loc, '/', k) {
            None => None,
            Some(j) => if j + 1 < k {
                Some(loc.subrange(j + 1, k))
            } else {
                None
            },
        },
    }
}

/// The model an SSDP answer names in its `LOCATION` header.
pub open spec fn model_of(response: Seq<char>) -> Option<Seq<char>> {
    match header_value(response, "LOCATION"@) {
        None => None,
        Some(loc) => model_from_location(loc),
    }
}

/// The model an SSDP answer names in its `LOCATION` header.
pub fn extract_model(response: &str) -> (r: Option<String>)
    requires
        is_ascii_chars(response@) || header_readable(response@, "LOCATION"@),
    ensures
        opt_view(r) == model_of(response@),
{
    let loc = match extract_header(response, "LOCATION") {
        Some(l) => l,
        None => {
            return None;
        },
    };
    let lc = chars_of(loc.as_str());
    let xml = chars_of(".xml");
    match chars_find(&lc, &xml) {
        None => None,
        Some(k) => {
            proof {
                lemma_find_sub_bounds(lc@, xml@, 0);
            }
            match chars_rfind(&lc, '/', k) {
                None => None,
                Some(j) => {
                    proof {
                        lemma_last_index_bounds(lc@, '/', k as int);
                    }
                    if j + 1 < k {
                        let part = slice_chars(&lc, j + 1, k);
                        Some(string_from_chars(&part))
                    } else {
                        None
                    }
                },
            }
        },
    }
}

} // verus!

verus! {

/// A Samsung TV that answered the discovery probe.
#[derive(Debug)]
pub struct DiscoveredTv {
    pub host: String,
    pub name: Option<String>,
    pub model: Option<String>,
}

/// The mathematical value of a discovered TV: host, name, model.
pub open spec fn tv_view(t: DiscoveredTv) -> (Seq<char>, Option<Seq<char>>, Option<Seq<char>>) {
    (t.host@, opt_view(t.name), opt_view(t.model))
}

/// The views of a list of discovered TVs.
pub open spec fn tvs_view(s: Seq<DiscoveredTv>) -> Seq<(Seq<char>, Option<Seq<char>>, Option<Seq<char>>)> {
    Seq::new(s.len() as nat, |i: int| tv_view(s[i]))
}

/// The list is ordered by host, each host once.
pub open spec fn hosts_sorted(s: Seq<DiscoveredTv>) -> bool {
    forall|i: int, j: int| 0 <= i < j < s.len() ==> lex_lt(#[trigger] s[i].host@, #[trigger] s[j].host@)
}

/// Whether a host is in the list.
pub open spec fn host_listed(s: Seq<DiscoveredTv>, host: Seq<char>) -> bool {
    exists|i: int| 0 <= i < s.len() && #[trigger] s[i].host@ == host
}

/// The name an answer gives: its `SERVER` header, else its `USN` header.
pub open spec fn name_of(response: Seq<char>) -> Option<Seq<char>> {
    match header_value(response, "SERVER"@) {
        Some(v) => Some(v),
        None => header_value(response, "USN"@),
    }
}

/// Whether the headers that describe a TV can be read from its answer (see
/// `scan_defined`), in the order they are read.
pub open spec fn answer_readable(response: Seq<char>) -> bool {
    &&& header_readable(response, "SERVER"@)
    &&& (header_value(response, "SERVER"@) is None ==> header_readable(response, "USN"@))
    &&& header_readable(response, "LOCATION"@)
}

/// Whether an answer from `host` adds a TV to the list: it comes from a Samsung TV and
/// the host is not listed yet (the first answer of a host wins).
pub open spec fn adds_tv(s: Seq<DiscoveredTv>, host: Seq<char>, response: Seq<char>) -> bool {
    is_samsung_answer(response) && !host_listed(s, host)
}

/// Whether the answer can be read where it would add a TV.
pub fn can_record(results: &Vec<DiscoveredTv>, host: &str, response: &str) -> (b: bool)
    requires
        hosts_sorted(results@),
    ensures
        b == (adds_tv(results@, host@, response@) ==> answer_readable(response@)),
        is_ascii_chars(response@) ==> b,
{
    if !is_samsung_tv(response) || find_host(results, host).0 {
        return true;
    }
    if !can_read_header(response, "SERVER") || !can_read_header(response, "LOCATION") {
        return false;
    }
    match extract_header(response, "SERVER") {
        Some(_) => true,
        None => can_read_header(response, "USN"),
    }
}

/// Whether `host` is listed, and where it belongs in the order.
fn find_host(results: &Vec<DiscoveredTv>, host: &str) -> (r: (bool, usize))
    requires
        hosts_sorted(results@),
    ensures
        r.0 == host_listed(results@, host@),
        !r.0 ==> r.1 <= results@.len(),
        !r.0 ==> forall|i: int| 0 <= i < r.1 ==> lex_lt(#[trigger] results@[i].host@, host@),
        !r.0 ==> forall|i: int| r.1 <= i < results@.len() ==> lex_lt(host@, #[trigger] results@[i].host@),
{
    let n = results.len();
    let mut i: usize = 0;
    while i < n
        invariant
            n == results@.len(),
            i <= n,
            hosts_sorted(results@),
            forall|j: int| 0 <= j < i ==> lex_lt(#[trigger] results@[j].host@, host@),
        decreases n - i,
    {
        let c = compare_strs(results[i].host.as_str(), host);
        if c == 0 {
            return (true, i);
        }
        if c == 1 {
            proof {
                assert forall|j: int| i <= j < n implies lex_lt(host@, #[trigger] results@[j].host@) by {
                    if j > i {
                        lemma_lex_transitive(host@, results@[i as int].host@, results@[j].host@);
                    }
                }
                assert forall|j: int| 0 <= j < n implies #[trigger] results@[j].host@ != host@ by {
                    lemma_lex_trichotomy(results@[j].host@, host@);
                }
            }
            return (false, i);
        }
        i += 1;
    }
    proof {
        assert forall|j: int| 0 <= j < n implies #[trigger] results@[j].host@ != host@ by {
            lemma_lex_trichotomy(results@[j].host@, host@);
        }
    }
    (false, n)
}

/// `after` is `before` with the answer from `host` taken in: still ordered by host; a new
/// Samsung TV is put in its place with the name and model its answer gives; anything else
/// leaves the list as it was.
pub open spec fn records(before: Seq<DiscoveredTv>, after: Seq<DiscoveredTv>, host: Seq<char>, response: Seq<char>) -> bool {
    &&& hosts_sorted(after)
    &&& !adds_tv(before, host, response) ==> after == before
    &&& adds_tv(before, host, response) ==> exists|p: int|
        0 <= p <= before.len() && tvs_view(after) == tvs_view(before).insert(
            p,
            (host, name_of(response), model_of(response)),
        ) && (forall|i: int| 0 <= i < p ==> lex_lt(#[trigger] before[i].host@, host)) && (forall|i: int|
            p <= i < before.len() ==> lex_lt(host, #[trigger] before[i].host@))
}

/// Takes an SSDP answer from `host` into the list of discovered TVs, which stays ordered
/// by host: a new Samsung TV is put in its place, with the name and model its answer
/// gives; anything else leaves the list as it is.
pub fn record_response(results: &mut Vec<DiscoveredTv>, host: String, response: &str)
    requires
        hosts_sorted(old(results)@),
        adds_tv(old(results)@, host@, response@) ==> (is_ascii_chars(response@) || answer_readable(
            response@,
        )),
    ensures
        records(old(results)@, final(results)@, host@, response@),
{
    if !is_samsung_tv(response) {
        return;
    }
    let (listed, p) = find_host(results, host.as_str());
    if listed {
        return;
    }
    let name = match extract_header(response, "SERVER") {
        Some(v) => Some(v),
        None => extract_header(response, "USN"),
    };
    let model = extract_model(response);
    let ghost before = results@;
    let ghost entry = (host@, opt_view(name), opt_view(model));
    results.insert(p, DiscoveredTv { host, name, model });
    proof {
        assert(tvs_view(results@) =~= tvs_view(before).insert(p as int, entry));
        assert forall|i: int, j: int| 0 <= i < j < results@.len() implies lex_lt(
            #[trigger] results@[i].host@,
            #[trigger] results@[j].host@,
        ) by {
            if j < p {
                assert(results@[i] == before[i]);
                assert(results@[j] == before[j]);
                assert(lex_lt(before[i].host@, before[j].host@));
            } else if j == p {
                assert(results@[i] == before[i]);
                assert(results@[j].host@ == entry.0);
                assert(lex_lt(before[i].host@, entry.0));
            } else if i < p {
                assert(results@[i] == before[i]);
                assert(results@[j] == before[j - 1]);
                assert(lex_lt(before[i].host@, entry.0));
                assert(lex_lt(entry.0, before[j - 1].host@));
                lemma_lex_transitive(results@[i].host@, entry.0, results@[j].host@);
            } else if i == p {
                assert(results@[i].host@ == entry.0);
                assert(results@[j] == before[j - 1]);
                assert(lex_lt(entry.0, before[j - 1].host@));
            } else {
                assert(results@[i] == before[i - 1]);
                assert(results@[j] == before[j - 1]);
                assert(lex_lt(before[i - 1].host@, before[j - 1].host@));
            }
        }
    }
}

/// Takes an SSDP answer from `host` in as `record_response` does, when the headers it
/// would read can be read; otherwise leaves the list as it is and says so.
pub fn take_answer(results: &mut Vec<DiscoveredTv>, host: String, response: &str) -> (taken: bool)
    requires
        hosts_sorted(old(results)@),
    ensures
        taken == (adds_tv(old(results)@, host@, response@) ==> answer_readable(response@)),
        is_ascii_chars(response@) ==> taken,
        taken ==> records(old(results)@, final(results)@, host@, response@),
        !taken ==> final(results)@ == old(results)@,
{
    if can_record(results, host.as_str(), response) {
        record_response(results, host, response);
        true
    } else {
        false
    }
}

/// The value of `header` in an SSDP answer, or `None` when a matching line cannot be cut
/// where its prefix ends (see `scan_defined`).
pub fn read_header(response: &str, header: &str) -> (r: Option<Option<String>>)
    ensures
        r is Some <==> header_readable(response@, header@),
        r matches Some(v) ==> opt_view(v) == header_value(response@, header@),
{
    try_extract_header(response, header)
}

} // verus!

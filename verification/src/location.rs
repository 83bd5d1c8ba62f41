use vstd::prelude::*;
use vstd::string::StrSliceExecFns;
use vstd::utf8::encode_utf8;

use crate::percent::{decode_text, percent_decode};
use crate::query::{parse_query_map, query_map_of};
use crate::query_map::QueryMap;

verus! {

/// The parts of the browser's location as the browser reports them, each
/// still percent-encoded (an unreadable part is the empty string).
pub struct RawLocation {
    pub href: String,
    pub protocol: String,
    pub host: String,
    pub hostname: String,
    pub port: String,
    pub hash: String,
    /// The search part, with its leading `?`.
    pub search: String,
    pub origin: String,
}

/// Where the web page was loaded from, decoded.
pub struct Location {
    /// The full url, decoded.
    pub url: String,
    pub protocol: String,
    pub host: String,
    pub hostname: String,
    pub port: String,
    /// The fragment, with its `#`, decoded.
    pub hash: String,
    /// The query without its `?`, still percent-encoded.
    pub query: String,
    /// The decoded keys and values of `query`.
    pub query_map: QueryMap,
    pub origin: String,
}

/// The query of a search string: what follows its leading `?`, or nothing
/// when it does not start with `?`.
pub open spec fn search_query(search: Seq<char>) -> Seq<char> {
    if search.len() > 0 && search[0] == '?' {
        search.drop_first()
    } else {
        Seq::empty()
    }
}

/// The query of a search string: `search` without its leading `?`, or the
/// empty string when there is no such `?`.
pub fn query_from_search(search: &str) -> (res: String)
    ensures
        res@ == search_query(search@),
{
    let len = search.unicode_len();
    if len > 0 && search.get_char(0) == '?' {
        let rest = search.substring_char(1, len);
        assert(search@.subrange(1, len as int) =~= search@.drop_first());
        rest.to_owned()
    } else {
        String::new()
    }
}

/// Builds the location record from the browser's raw parts: every part
/// percent-decoded but the query, which loses its `?` and is parsed into
/// `query_map`.
pub fn web_location(raw: &RawLocation) -> (res: Location)
    ensures
        res.url@ == decode_text(raw.href@),
        res.protocol@ == decode_text(raw.protocol@),
        res.host@ == decode_text(raw.host@),
        res.hostname@ == decode_text(raw.hostname@),
        res.port@ == decode_text(raw.port@),
        res.hash@ == decode_text(raw.hash@),
        res.query@ == search_query(raw.search@),
        res.query_map.wf(),
        res.query_map.as_map() == query_map_of(encode_utf8(search_query(raw.search@))),
        res.origin@ == decode_text(raw.origin@),
{
    let hash = percent_decode(raw.hash.as_str());
    let query = query_from_search(raw.search.as_str());
    let query_map = parse_query_map(query.as_str());
    Location {
        url: percent_decode(raw.href.as_str()),
        protocol: percent_decode(raw.protocol.as_str()),
        host: percent_decode(raw.host.as_str()),
        hostname: percent_decode(raw.hostname.as_str()),
        port: percent_decode(raw.port.as_str()),
        hash,
        query_map,
        query,
        origin: percent_decode(raw.origin.as_str()),
    }
}

} // verus!

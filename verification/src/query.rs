//! The addresses of the `FT.AGGREGATE` queries sent to the data provider.

use vstd::prelude::*;
use vstd::string::*;
use crate::decimal::{all_digits, decimal, digits_value, lemma_decimal_digits, push_decimal};

verus! {

/// Where the data provider listens.
pub const DATA_PROVIDER_URL: &'static str = "http://localhost:7379/";

/// The query that sums `field` over an era, grouped by `group` and era.
pub open spec fn aggregate_query(era: u64, group: Seq<char>, field: Seq<char>) -> Seq<char> {
    DATA_PROVIDER_URL@ + "FT.AGGREGATE/ddc:dac:searchCommonIndex/@era:["@ + decimal(era as nat)
        + "%20"@ + decimal(era as nat) + "]/GROUPBY/2/"@ + group + "/@era/REDUCE/SUM/1/@"@ + field
        + "/AS/"@ + field + "Sum"@
}

/// At `start`, `url` holds a run of digits up to `mid` that writes `era`,
/// then `%20`, then another run of digits up to `end` that writes `era`,
/// then `]`.
pub open spec fn era_range_at(url: Seq<char>, start: int, mid: int, end: int, era: u64) -> bool {
    &&& 0 <= start < mid
    &&& mid + 3 < end < url.len()
    &&& all_digits(url.subrange(start, mid))
    &&& digits_value(url.subrange(start, mid)) == era
    &&& url.subrange(mid, mid + 3) == "%20"@
    &&& all_digits(url.subrange(mid + 3, end))
    &&& digits_value(url.subrange(mid + 3, end)) == era
    &&& url.subrange(end, end + 1) == "]"@
}

/// The era range of a query names the era itself, in full: right after
/// `@era:[` stands a run of digits that writes `era`, then `%20`, then
/// another run of digits that writes `era`, then `]`.
pub proof fn law_query_names_its_era(era: u64, group: Seq<char>, field: Seq<char>)
    ensures
        ({
            let url = aggregate_query(era, group, field);
            let start = (DATA_PROVIDER_URL@ + "FT.AGGREGATE/ddc:dac:searchCommonIndex/@era:["@).len();
            exists|mid: int, end: int| #[trigger] era_range_at(url, start as int, mid, end, era)
        }),
{
    let d = decimal(era as nat);
    lemma_decimal_digits(era as nat);
    let head = DATA_PROVIDER_URL@ + "FT.AGGREGATE/ddc:dac:searchCommonIndex/@era:["@;
    let pct = "%20"@;
    let tail = "]/GROUPBY/2/"@ + group + "/@era/REDUCE/SUM/1/@"@ + field + "/AS/"@ + field + "Sum"@;
    let url = aggregate_query(era, group, field);
    reveal_strlit("%20");
    reveal_strlit("]/GROUPBY/2/");
    reveal_strlit("]");
    assert(url =~= head + d + pct + d + tail);
    let start = head.len() as int;
    let mid = start + d.len();
    let end = mid + 3 + d.len();
    assert(url.subrange(start, mid) =~= d);
    assert(url.subrange(mid, mid + 3) =~= pct);
    assert(url.subrange(mid + 3, end) =~= d);
    assert(tail[0] == ']');
    assert(url.subrange(end, end + 1) =~= "]"@);
    assert(era_range_at(url, start, mid, end, era));
}

/// Builds the query that sums `field` over `era`, grouped by `group`.
pub fn aggregate_query_url(era: u64, group: &str, field: &str) -> (r: String)
    ensures
        r@ == aggregate_query(era, group@, field@),
{
    let mut url = String::from_str(DATA_PROVIDER_URL);
    url.append("FT.AGGREGATE/ddc:dac:searchCommonIndex/@era:[");
    push_decimal(&mut url, era);
    url.append("%20");
    push_decimal(&mut url, era);
    url.append("]/GROUPBY/2/");
    url.append(group);
    url.append("/@era/REDUCE/SUM/1/@");
    url.append(field);
    url.append("/AS/");
    url.append(field);
    url.append("Sum");
    url
}

/// The field that holds the bytes a node sent.
pub open spec fn bytes_sent_field() -> Seq<char> {
    "bytesSent"@
}

/// The field that holds the bytes clients received.
pub open spec fn bytes_received_field() -> Seq<char> {
    "bytesReceived"@
}

/// Builds the query for the bytes sent in `era`, grouped by `group`.
pub fn bytes_sent_query_url(era: u64, group: &str) -> (r: String)
    ensures
        r@ == aggregate_query(era, group@, bytes_sent_field()),
{
    aggregate_query_url(era, group, "bytesSent")
}

/// Builds the query for the bytes received in `era`, grouped by `group`.
pub fn bytes_received_query_url(era: u64, group: &str) -> (r: String)
    ensures
        r@ == aggregate_query(era, group@, bytes_received_field()),
{
    aggregate_query_url(era, group, "bytesReceived")
}

} // verus!

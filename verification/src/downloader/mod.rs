//! Planning a download: which byte ranges to ask for, over which protocol,
//! and what each worker is told.

pub mod ftp;
pub mod http;

use crate::args::{CommandLineArgs, CommandLineArgsView};
use crate::concurrency::{DownloadTask, DownloadTaskView};
use crate::error::{AppError, AppErrorView};
use crate::url_validator::{parse_url, parsed_view, url_parse, ParsedUrl, ParsedUrlView};
use crate::text::same_text;
use vstd::prelude::*;

verus! {

/// Bytes per range when `total` bytes are shared among `connections`
/// requests: the quotient rounded up.
pub open spec fn chunk_size(connections: nat, total: nat) -> nat {
    if connections == 0 {
        0
    } else {
        ((total + connections - 1) / (connections as int)) as nat
    }
}

/// How many ranges a plan holds: as many ranges of `chunk_size` bytes as it
/// takes to reach `total`. This is `connections` unless the ranges at the end
/// would lie behind the last byte; those are left out.
pub open spec fn range_count(connections: nat, total: nat) -> nat {
    let chunk = chunk_size(connections, total);
    if chunk == 0 {
        0
    } else {
        ((total + chunk - 1) / (chunk as int)) as nat
    }
}

/// First byte of range `i`.
pub open spec fn range_start(connections: nat, total: nat, i: nat) -> nat {
    i * chunk_size(connections, total)
}

/// Last byte of range `i`: a full chunk, cut off at the last byte of the
/// resource.
pub open spec fn range_end(connections: nat, total: nat, i: nat) -> nat {
    let full = range_start(connections, total, i) + chunk_size(connections, total) - 1;
    if full <= total - 1 {
        full as nat
    } else {
        (total - 1) as nat
    }
}

/// The plan: the inclusive byte ranges `(start, end)` in the order of their
/// index.
pub open spec fn byte_ranges(connections: nat, total: nat) -> Seq<(u64, u64)> {
    Seq::new(
        range_count(connections, total),
        |i: int|
            (
                range_start(connections, total, i as nat) as u64,
                range_end(connections, total, i as nat) as u64,
            ),
    )
}

/// Number of bytes in the inclusive range `r`.
pub open spec fn range_len(r: (u64, u64)) -> int {
    r.1 - r.0 + 1
}

/// Sum of the lengths of `ranges`.
pub open spec fn total_len(ranges: Seq<(u64, u64)>) -> int
    decreases ranges.len(),
{
    if ranges.len() == 0 {
        0
    } else {
        total_len(ranges.drop_last()) + range_len(ranges.last())
    }
}

proof fn lemma_chunk_bounds(connections: nat, total: nat)
    requires
        connections >= 1,
        total >= 1,
    ensures
        1 <= chunk_size(connections, total) <= total,
        chunk_size(connections, total) * connections >= total,
        (chunk_size(connections, total) - 1) * connections < total,
        chunk_size(connections, total) == total / connections + (if total % connections == 0 {
            0int
        } else {
            1int
        }),
{
    let n = connections as int;
    let t = total as int;
    let c = (t + n - 1) / n;
    assert(c == chunk_size(connections, total));
    assert(c * n <= t + n - 1 < (c + 1) * n && c >= 1 && c <= t && c == t / n + (if t % n == 0 {
        0int
    } else {
        1int
    })) by (nonlinear_arith)
        requires
            n >= 1,
            t >= 1,
            c == (t + n - 1) / n,
    ;
    assert((c - 1) * n == c * n - n && (c + 1) * n == c * n + n) by (nonlinear_arith);
}

proof fn lemma_count_bounds(connections: nat, total: nat)
    requires
        connections >= 1,
        total >= 1,
    ensures
        1 <= range_count(connections, total) <= connections,
        range_count(connections, total) * chunk_size(connections, total) >= total,
        (range_count(connections, total) - 1) * chunk_size(connections, total) < total,
{
    lemma_chunk_bounds(connections, total);
    let n = connections as int;
    let t = total as int;
    let c = chunk_size(connections, total) as int;
    let k = (t + c - 1) / c;
    assert(k == range_count(connections, total));
    assert(k * c <= t + c - 1 < (k + 1) * c && k >= 1) by (nonlinear_arith)
        requires
            c >= 1,
            t >= 1,
            k == (t + c - 1) / c,
    ;
    assert((k - 1) * c == k * c - c && (k + 1) * c == k * c + c) by (nonlinear_arith);
    assert(k <= n) by (nonlinear_arith)
        requires
            (k - 1) * c < t,
            c * n >= t,
            c >= 1,
            n >= 1,
            k >= 1,
    ;
}

/// The number of ranges is the one `k` with `(k - 1) * chunk < total <= k * chunk`.
proof fn lemma_count_unique(connections: nat, total: nat, k: int)
    requires
        connections >= 1,
        total >= 1,
        k >= 1,
        (k - 1) * chunk_size(connections, total) < total,
        k * chunk_size(connections, total) >= total,
    ensures
        k == range_count(connections, total),
{
    lemma_count_bounds(connections, total);
    let c = chunk_size(connections, total) as int;
    let t = total as int;
    let m = range_count(connections, total) as int;
    assert(k == m) by (nonlinear_arith)
        requires
            c >= 1,
            (k - 1) * c < t,
            k * c >= t,
            (m - 1) * c < t,
            m * c >= t,
    ;
}

/// Start and end of every range of a plan: in order, inside the resource,
/// never empty.
pub proof fn lemma_range_bounds(connections: nat, total: nat, i: nat)
    requires
        connections >= 1,
        total >= 1,
        i < range_count(connections, total),
    ensures
        range_start(connections, total, i) <= range_end(connections, total, i) < total,
        range_end(connections, total, i) - range_start(connections, total, i) + 1 <= chunk_size(
            connections,
            total,
        ),
        i + 1 < range_count(connections, total) ==> range_end(connections, total, i) + 1
            == range_start(connections, total, i + 1) && range_end(connections, total, i)
            - range_start(connections, total, i) + 1 == chunk_size(connections, total),
        i + 1 == range_count(connections, total) ==> range_end(connections, total, i) == total - 1,
{
    lemma_chunk_bounds(connections, total);
    lemma_count_bounds(connections, total);
    let c = chunk_size(connections, total) as int;
    let k = range_count(connections, total) as int;
    let t = total as int;
    let ii = i as int;
    assert(ii * c <= (k - 1) * c) by (nonlinear_arith)
        requires
            0 <= ii <= k - 1,
            c >= 1,
    ;
    assert((ii + 1) * c == ii * c + c) by (nonlinear_arith);
    if ii + 1 < k {
        assert((ii + 1) * c <= (k - 1) * c) by (nonlinear_arith)
            requires
                0 <= ii + 1 <= k - 1,
                c >= 1,
        ;
    } else {
        assert((ii + 1) * c == k * c);
    }
}

/// Whether byte `b` lies inside the inclusive range `r`.
pub open spec fn range_holds(r: (u64, u64), b: int) -> bool {
    r.0 <= b <= r.1
}

proof fn lemma_total_len_prefix(connections: nat, total: nat, k: nat)
    requires
        connections >= 1,
        1 <= total <= u64::MAX,
        k <= range_count(connections, total),
    ensures
        k < range_count(connections, total) ==> total_len(byte_ranges(connections, total).take(k as int))
            == k * chunk_size(connections, total),
        k == range_count(connections, total) ==> total_len(
            byte_ranges(connections, total).take(k as int),
        ) == total,
    decreases k,
{
    let plan = byte_ranges(connections, total);
    let c = chunk_size(connections, total);
    lemma_count_bounds(connections, total);
    if k == 0 {
        assert(0 * c == 0) by (nonlinear_arith);
    } else {
        let j = (k - 1) as nat;
        lemma_total_len_prefix(connections, total, j);
        lemma_range_bounds(connections, total, j);
        assert(plan.take(k as int).drop_last() =~= plan.take(j as int));
        assert(plan.take(k as int).last() == plan[j as int]);
        assert((j + 1) * c == j * c + c) by (nonlinear_arith);
    }
}

/// The ranges of a plan partition the resource: each lies inside it, no
/// range is empty, each starts right behind the one before it, the first
/// starts at byte 0 and the last ends at the last byte. Hence no byte lies in
/// two ranges, every byte lies in one, and the lengths add up to the size.
pub proof fn lemma_plan_partitions(connections: nat, total: nat)
    requires
        connections >= 1,
        1 <= total <= u64::MAX,
    ensures
        ({
            let plan = byte_ranges(connections, total);
            &&& 1 <= plan.len() <= connections
            &&& plan[0].0 == 0
            &&& plan.last().1 == total - 1
            &&& forall|i: int| 0 <= i < plan.len() ==> (#[trigger] plan[i]).0 <= plan[i].1 < total
            &&& forall|i: int|
                0 <= i < plan.len() - 1 ==> (#[trigger] plan[i]).1 + 1 == plan[i + 1].0
            &&& forall|i: int, j: int|
                0 <= i < j < plan.len() ==> (#[trigger] plan[i]).1 < (#[trigger] plan[j]).0
            &&& forall|b: int|
                0 <= b < total ==> 0 <= #[trigger] plan_index_of(connections, total, b)
                    < plan.len() && range_holds(plan[plan_index_of(connections, total, b)], b)
            &&& forall|i: int, j: int, b: int|
                0 <= i < plan.len() && 0 <= j < plan.len() && range_holds(plan[i], b)
                    && range_holds(plan[j], b) ==> i == j
            &&& total_len(plan) == total
        }),
{
    let plan = byte_ranges(connections, total);
    let c = chunk_size(connections, total) as int;
    let k = range_count(connections, total) as int;
    lemma_chunk_bounds(connections, total);
    lemma_count_bounds(connections, total);
    assert(0 * c == 0) by (nonlinear_arith);
    lemma_range_bounds(connections, total, (k - 1) as nat);
    assert forall|i: int| 0 <= i < plan.len() implies (#[trigger] plan[i]).0 <= plan[i].1
        < total by {
        lemma_range_bounds(connections, total, i as nat);
    }
    assert forall|i: int| 0 <= i < plan.len() - 1 implies (#[trigger] plan[i]).1 + 1 == plan[i
        + 1].0 by {
        lemma_range_bounds(connections, total, i as nat);
        lemma_range_bounds(connections, total, (i + 1) as nat);
    }
    assert forall|i: int, j: int| 0 <= i < j < plan.len() implies (#[trigger] plan[i]).1 < (
    #[trigger] plan[j]).0 by {
        lemma_range_bounds(connections, total, i as nat);
        lemma_range_bounds(connections, total, j as nat);
        assert((i + 1) * c <= j * c) by (nonlinear_arith)
            requires
                i + 1 <= j,
                c >= 1,
        ;
    }
    assert forall|b: int| 0 <= b < total implies 0 <= #[trigger] plan_index_of(
        connections,
        total,
        b,
    ) < plan.len() && range_holds(plan[plan_index_of(connections, total, b)], b) by {
        let i = b / c;
        assert(i * c <= b < (i + 1) * c && i >= 0) by (nonlinear_arith)
            requires
                b >= 0,
                c >= 1,
                i == b / c,
        ;
        assert(i < k) by (nonlinear_arith)
            requires
                i * c <= b,
                b < total,
                (k - 1) * c < total,
                k * c >= total,
                c >= 1,
                i >= 0,
        ;
        lemma_range_bounds(connections, total, i as nat);
        assert((i + 1) * c == i * c + c) by (nonlinear_arith);
    }
    assert forall|i: int, j: int, b: int|
        0 <= i < plan.len() && 0 <= j < plan.len() && range_holds(plan[i], b) && range_holds(
            plan[j],
            b,
        ) implies i == j by {
        if i < j {
            assert(plan[i].1 < plan[j].0);
        } else if j < i {
            assert(plan[j].1 < plan[i].0);
        }
    }
    lemma_total_len_prefix(connections, total, k as nat);
    assert(plan.take(k) =~= plan);
}

/// Index of the range of the plan that holds byte `b`.
pub open spec fn plan_index_of(connections: nat, total: nat, b: int) -> int {
    b / (chunk_size(connections, total) as int)
}

/// Planning is a function of its two inputs: any two results of
/// `calculate_byte_ranges` for the same connections and size are equal.
pub proof fn lemma_plan_deterministic(
    connections: nat,
    total: nat,
    first: Seq<(u64, u64)>,
    second: Seq<(u64, u64)>,
)
    requires
        first == byte_ranges(connections, total),
        second == byte_ranges(connections, total),
    ensures
        first == second,
{
}

/// With as many bytes as connections every range holds exactly one byte:
/// range `i` is `(i, i)`.
pub proof fn lemma_one_byte_per_connection(connections: nat)
    requires
        1 <= connections <= u64::MAX,
    ensures
        byte_ranges(connections, connections).len() == connections,
        forall|i: int|
            0 <= i < connections ==> #[trigger] byte_ranges(connections, connections)[i] == (
                i as u64,
                i as u64,
            ),
{
    let n = connections as int;
    assert((n + n - 1) / n == 1) by (nonlinear_arith)
        requires
            n >= 1,
    ;
    assert(chunk_size(connections, connections) == 1);
    assert((n + 1 - 1) / 1 == n);
    assert(range_count(connections, connections) == connections);
    assert forall|i: int| 0 <= i < connections implies #[trigger] byte_ranges(
        connections,
        connections,
    )[i] == (i as u64, i as u64) by {
        assert(range_start(connections, connections, i as nat) == i) by (nonlinear_arith)
            requires
                range_start(connections, connections, i as nat) == i * 1,
        ;
    }
}

/// When the size is no multiple of the connections, the lengths of the
/// ranges still add up to the size, and a plan that holds one range for each
/// connection ends with a range shorter than the others.
pub proof fn lemma_uneven_split(connections: nat, total: nat)
    requires
        connections >= 1,
        1 <= total <= u64::MAX,
        total % connections != 0,
    ensures
        total_len(byte_ranges(connections, total)) == total,
        byte_ranges(connections, total).len() == connections ==> range_len(
            byte_ranges(connections, total).last(),
        ) < chunk_size(connections, total),
        forall|i: int|
            0 <= i < byte_ranges(connections, total).len() - 1 ==> range_len(
                #[trigger] byte_ranges(connections, total)[i],
            ) == chunk_size(connections, total),
{
    lemma_plan_partitions(connections, total);
    lemma_chunk_bounds(connections, total);
    lemma_count_bounds(connections, total);
    let plan = byte_ranges(connections, total);
    let c = chunk_size(connections, total) as int;
    let n = connections as int;
    let t = total as int;
    assert forall|i: int| 0 <= i < plan.len() - 1 implies range_len(#[trigger] plan[i]) == c by {
        lemma_range_bounds(connections, total, i as nat);
    }
    if plan.len() == connections {
        lemma_range_bounds(connections, total, (n - 1) as nat);
        assert(c * n > t) by (nonlinear_arith)
            requires
                c == t / n + 1,
                n >= 1,
                t >= 1,
                t % n != 0,
        ;
        assert((n - 1) * c == c * n - c) by (nonlinear_arith);
    }
}

/// Lays out the byte ranges of a download of `total_file_size` bytes over
/// `connections` requests.
///
/// Range `i` starts at `i * chunk` and is `chunk` bytes long, where `chunk`
/// is the size divided by the connections, rounded up; the last range ends
/// with the resource. Ranges that would start behind the last byte are not
/// part of the plan, so that no range is empty.
pub fn calculate_byte_ranges(connections: usize, total_file_size: u64) -> (ranges: Vec<(u64, u64)>)
    requires
        connections >= 1,
        total_file_size >= 1,
    ensures
        ranges@ == byte_ranges(connections as nat, total_file_size as nat),
        1 <= ranges@.len() <= connections,
        forall|i: int| 0 <= i < ranges@.len() ==> (#[trigger] ranges@[i]).0 <= ranges@[i].1,
{
    let ghost n = connections as nat;
    let ghost t = total_file_size as nat;
    proof {
        lemma_chunk_bounds(n, t);
        lemma_count_bounds(n, t);
    }
    let divisor: u64 = connections as u64;
    let quotient: u64 = total_file_size / divisor;
    let chunk: u64 = if total_file_size % divisor == 0 {
        quotient
    } else {
        quotient + 1
    };
    let mut ranges: Vec<(u64, u64)> = Vec::new();
    let mut start: u64 = 0;
    let mut done: bool = false;
    while !done
        invariant
            n >= 1,
            t >= 1,
            n == connections,
            t == total_file_size,
            chunk == chunk_size(n, t),
            1 <= chunk <= total_file_size,
            ranges@.len() <= range_count(n, t),
            done ==> ranges@.len() == range_count(n, t),
            !done ==> ranges@.len() < range_count(n, t),
            !done ==> start == range_start(n, t, ranges@.len()),
            forall|i: int|
                0 <= i < ranges@.len() ==> #[trigger] ranges@[i] == (
                    range_start(n, t, i as nat) as u64,
                    range_end(n, t, i as nat) as u64,
                ),
            forall|i: int| 0 <= i < ranges@.len() ==> (#[trigger] ranges@[i]).0 <= ranges@[i].1,
        decreases range_count(n, t) - ranges@.len(), if done { 0int } else { 1int },
    {
        let ghost i = ranges@.len();
        proof {
            lemma_range_bounds(n, t, i);
        }
        let remaining: u64 = total_file_size - start;
        let end: u64 = if remaining <= chunk {
            total_file_size - 1
        } else {
            start + (chunk - 1)
        };
        ranges.push((start, end));
        proof {
            assert((i + 1) * chunk == i * chunk + chunk) by (nonlinear_arith);
        }
        if remaining <= chunk {
            proof {
                lemma_count_unique(n, t, (i + 1) as int);
            }
            done = true;
        } else {
            proof {
                assert(i + 1 != range_count(n, t)) by {
                    if i + 1 == range_count(n, t) {
                        assert(range_count(n, t) * chunk_size(n, t) >= t);
                    }
                }
            }
            start = start + chunk;
        }
    }
    assert(ranges@ =~= byte_ranges(n, t));
    ranges
}

/// The protocols that a resource can be asked for over.
#[derive(Clone, Copy, Debug, PartialEq, Eq)]
pub enum Protocol {
    /// `http` and `https`.
    Http,
    /// `ftp` and `sftp`.
    Ftp,
}

/// The protocol over which the ranges of a URL are fetched, given the
/// outcome of parsing it: HTTP for the schemes `http` and `https`, and no
/// other scheme is supported. A parse error is handed on with its message.
pub open spec fn download_protocol_of(parsed: Result<ParsedUrlView, Seq<char>>) -> Result<
    Protocol,
    AppErrorView,
> {
    match parsed {
        Err(message) => Err(AppErrorView::UrlParseError(message)),
        Ok(url) => if url.scheme == "http"@ || url.scheme == "https"@ {
            Ok(Protocol::Http)
        } else {
            Err(AppErrorView::UnsupportedProtocol)
        },
    }
}

/// The protocol over which the size of the resource of a URL is asked for,
/// given the outcome of parsing it: HTTP for the schemes `http` and
/// `https`, FTP for `ftp` and `sftp`, and no other scheme is supported. A
/// parse error is handed on with its message.
pub open spec fn probe_protocol_of(parsed: Result<ParsedUrlView, Seq<char>>) -> Result<
    Protocol,
    AppErrorView,
> {
    match parsed {
        Err(message) => Err(AppErrorView::UrlParseError(message)),
        Ok(url) => if url.scheme == "http"@ || url.scheme == "https"@ {
            Ok(Protocol::Http)
        } else if url.scheme == "ftp"@ || url.scheme == "sftp"@ {
            Ok(Protocol::Ftp)
        } else {
            Err(AppErrorView::UnsupportedProtocol)
        },
    }
}

/// Picks the protocol for fetching ranges from the outcome of parsing the
/// URL.
pub fn download_protocol(parsed: Result<ParsedUrl, String>) -> (protocol: Result<Protocol, AppError>)
    ensures
        match protocol {
            Ok(p) => download_protocol_of(parsed_view(parsed)) == Ok::<Protocol, AppErrorView>(p),
            Err(e) => download_protocol_of(parsed_view(parsed)) == Err::<Protocol, AppErrorView>(
                e@,
            ),
        },
{
    match parsed {
        Err(message) => Err(AppError::UrlParseError(message)),
        Ok(url) => {
            let scheme = url.scheme.as_str();
            if same_text(scheme, "http") || same_text(scheme, "https") {
                Ok(Protocol::Http)
            } else {
                Err(AppError::UnsupportedProtocol)
            }
        },
    }
}

/// Picks the protocol for asking the size from the outcome of parsing the
/// URL.
pub fn probe_protocol(parsed: Result<ParsedUrl, String>) -> (protocol: Result<Protocol, AppError>)
    ensures
        match protocol {
            Ok(p) => probe_protocol_of(parsed_view(parsed)) == Ok::<Protocol, AppErrorView>(p),
            Err(e) => probe_protocol_of(parsed_view(parsed)) == Err::<Protocol, AppErrorView>(e@),
        },
{
    match parsed {
        Err(message) => Err(AppError::UrlParseError(message)),
        Ok(url) => {
            let scheme = url.scheme.as_str();
            if same_text(scheme, "http") || same_text(scheme, "https") {
                Ok(Protocol::Http)
            } else if same_text(scheme, "ftp") || same_text(scheme, "sftp") {
                Ok(Protocol::Ftp)
            } else {
                Err(AppError::UnsupportedProtocol)
            }
        },
    }
}

/// The protocol over which the ranges of `url` are fetched.
pub fn download_chunk(url: &str) -> (protocol: Result<Protocol, AppError>)
    ensures
        match protocol {
            Ok(p) => download_protocol_of(url_parse(url@)) == Ok::<Protocol, AppErrorView>(p),
            Err(e) => download_protocol_of(url_parse(url@)) == Err::<Protocol, AppErrorView>(e@),
        },
{
    download_protocol(parse_url(url))
}

/// The protocol over which the size of the resource at `url` is asked for.
pub fn get_total_file_size(url: &str) -> (protocol: Result<Protocol, AppError>)
    ensures
        match protocol {
            Ok(p) => probe_protocol_of(url_parse(url@)) == Ok::<Protocol, AppErrorView>(p),
            Err(e) => probe_protocol_of(url_parse(url@)) == Err::<Protocol, AppErrorView>(e@),
        },
{
    probe_protocol(parse_url(url))
}

/// The last component of `path` as `std::path::Path::file_name` gives it,
/// if it gives one. What counts as a component is the platform's affair,
/// so nothing is claimed of the name.
#[verifier::external_body]
fn path_file_name(path: &str) -> (name: Option<String>) {
    match std::path::Path::new(path).file_name() {
        Some(name) => Some(name.to_string_lossy().into_owned()),
        None => None,
    }
}

/// The path of the output file: the one asked for, else the file name at
/// the end of the URL's path. Without either, and with an empty name, there
/// is no output path.
pub open spec fn output_path_of(output: Option<Seq<char>>, file_name: Option<Seq<char>>) -> Result<
    Seq<char>,
    AppErrorView,
> {
    match output {
        Some(path) => Ok(path),
        None => match file_name {
            Some(name) => if name.len() > 0 {
                Ok(name)
            } else {
                Err(AppErrorView::CouldNotConnect("Could not derive filename from URL"@))
            },
            None => Err(AppErrorView::CouldNotConnect("Could not derive filename from URL"@)),
        },
    }
}

/// Settles the path of the output file from the path that the command line
/// asks for, if any, and the file name at the end of the URL's path, if it
/// has one.
pub fn derive_output_path(output: &Option<String>, file_name: Option<String>) -> (path: Result<
    String,
    AppError,
>)
    ensures
        match path {
            Ok(p) => output_path_of(
                crate::args::option_text(*output),
                crate::args::option_text(file_name),
            ) == Ok::<Seq<char>, AppErrorView>(p@),
            Err(e) => output_path_of(
                crate::args::option_text(*output),
                crate::args::option_text(file_name),
            ) == Err::<Seq<char>, AppErrorView>(e@),
        },
{
    match output {
        Some(path) => Ok(path.clone()),
        None => match file_name {
            Some(name) => {
                if name.as_str().unicode_len() > 0 {
                    Ok(name)
                } else {
                    Err(
                        AppError::CouldNotConnect(
                            String::from_str("Could not derive filename from URL"),
                        ),
                    )
                }
            },
            None => Err(
                AppError::CouldNotConnect(String::from_str("Could not derive filename from URL")),
            ),
        },
    }
}

/// The tasks of a plan: one for each range, in order, with the index of the
/// range, all for the same URL and the same output file.
pub open spec fn tasks_of(url: Seq<char>, ranges: Seq<(u64, u64)>, output_path: Seq<char>) -> Seq<
    DownloadTaskView,
> {
    Seq::new(
        ranges.len(),
        |i: int|
            DownloadTaskView {
                url,
                start: ranges[i].0,
                end: ranges[i].1,
                index: i as usize,
                file_path: output_path,
            },
    )
}

/// The views of the tasks in `tasks`.
pub open spec fn task_views(tasks: Seq<DownloadTask>) -> Seq<DownloadTaskView> {
    Seq::new(tasks.len(), |i: int| tasks[i]@)
}

/// Makes one task for each of `ranges`, in order.
pub fn build_tasks(url: &str, ranges: &Vec<(u64, u64)>, output_path: &str) -> (tasks: Vec<
    DownloadTask,
>)
    ensures
        task_views(tasks@) == tasks_of(url@, ranges@, output_path@),
{
    let mut tasks: Vec<DownloadTask> = Vec::new();
    let mut i: usize = 0;
    while i < ranges.len()
        invariant
            i <= ranges@.len(),
            tasks@.len() == i,
            forall|k: int|
                0 <= k < i ==> (#[trigger] tasks@[k])@ == tasks_of(url@, ranges@, output_path@)[k],
        decreases ranges@.len() - i,
    {
        let range: (u64, u64) = ranges[i];
        tasks.push(
            DownloadTask::new(
                String::from_str(url),
                range.0,
                range.1,
                i,
                String::from_str(output_path),
            ),
        );
        i = i + 1;
    }
    assert(task_views(tasks@) =~= tasks_of(url@, ranges@, output_path@));
    tasks
}

/// What a download of `total_size` bytes is split into, given the path of
/// the output file: nothing, with an error, for a resource without bytes
/// and for a number of connections that is not from 1 to 100; else the
/// tasks of the plan.
pub open spec fn download_chunks_of(
    args: CommandLineArgsView,
    total_size: u64,
    output_path: Result<Seq<char>, AppErrorView>,
) -> Result<Seq<DownloadTaskView>, AppErrorView> {
    if total_size == 0 {
        Err(AppErrorView::CouldNotConnect("empty resource"@))
    } else if !(crate::args::MIN_CONNECTIONS <= args.connections <= crate::args::MAX_CONNECTIONS) {
        Err(AppErrorView::CouldNotConnect("connections must be between 1 and 100"@))
    } else {
        match output_path {
            Err(e) => Err(e),
            Ok(path) => Ok(
                tasks_of(args.url, byte_ranges(args.connections as nat, total_size as nat), path),
            ),
        }
    }
}

/// Splits a download of `total_size` bytes into tasks, given the path of
/// the output file or the reason why there is none.
pub fn plan_download_chunks(
    args: &CommandLineArgs,
    total_size: u64,
    output_path: Result<String, AppError>,
) -> (tasks: Result<Vec<DownloadTask>, AppError>)
    ensures
        match tasks {
            Ok(list) => download_chunks_of(args@, total_size, path_view(output_path)) == Ok::<
                Seq<DownloadTaskView>,
                AppErrorView,
            >(task_views(list@)) && forall|i: int|
                0 <= i < list@.len() ==> (#[trigger] list@[i]).wf(),
            Err(e) => download_chunks_of(args@, total_size, path_view(output_path)) == Err::<
                Seq<DownloadTaskView>,
                AppErrorView,
            >(e@),
        },
{
    if total_size == 0 {
        return Err(AppError::CouldNotConnect(String::from_str("empty resource")));
    }
    if !args.is_valid() {
        return Err(
            AppError::CouldNotConnect(String::from_str("connections must be between 1 and 100")),
        );
    }
    match output_path {
        Err(e) => Err(e),
        Ok(path) => {
            let ranges = calculate_byte_ranges(args.connections as usize, total_size);
            let tasks = build_tasks(args.url.as_str(), &ranges, path.as_str());
            proof {
                lemma_plan_partitions(args.connections as nat, total_size as nat);
                let plan = byte_ranges(args.connections as nat, total_size as nat);
                let views = tasks_of(args.url@, plan, path@);
                assert(task_views(tasks@).len() == views.len());
                assert forall|i: int| 0 <= i < tasks@.len() implies (#[trigger] tasks@[i]).wf() by {
                    assert(tasks@[i]@ == task_views(tasks@)[i]);
                    assert(views[i].start == plan[i].0 && views[i].end == plan[i].1);
                    assert(plan[i].0 <= plan[i].1 < total_size);
                }
            }
            Ok(tasks)
        },
    }
}

/// The path of an output file, or the reason why there is none, as
/// character sequences.
pub open spec fn path_view(path: Result<String, AppError>) -> Result<Seq<char>, AppErrorView> {
    match path {
        Ok(p) => Ok(p@),
        Err(e) => Err(e@),
    }
}

/// Whether `path` can be the output path of the download that `args` asks
/// for: the path on the command line if there is one; else, for a URL that
/// parses, some name that is not empty or the error that there is none,
/// and for a URL that does not parse its parse error.
pub open spec fn output_path_fits(
    args: CommandLineArgsView,
    path: Result<Seq<char>, AppErrorView>,
) -> bool {
    match args.output {
        Some(asked) => path == Ok::<Seq<char>, AppErrorView>(asked),
        None => match url_parse(args.url) {
            Err(message) => path == Err::<Seq<char>, AppErrorView>(
                AppErrorView::UrlParseError(message),
            ),
            Ok(_) => match path {
                Ok(name) => name.len() > 0,
                Err(e) => e == AppErrorView::CouldNotConnect("Could not derive filename from URL"@),
            },
        },
    }
}

/// The tasks of a download, or the reason why there are none, as views.
pub open spec fn chunks_view(tasks: Result<Vec<DownloadTask>, AppError>) -> Result<
    Seq<DownloadTaskView>,
    AppErrorView,
> {
    match tasks {
        Ok(list) => Ok(task_views(list@)),
        Err(e) => Err(e@),
    }
}

/// Whether every task in `tasks`, if there are any, is well formed.
pub open spec fn chunks_wf(tasks: Result<Vec<DownloadTask>, AppError>) -> bool {
    match tasks {
        Ok(list) => forall|i: int| 0 <= i < list@.len() ==> (#[trigger] list@[i]).wf(),
        Err(_) => true,
    }
}

/// Splits the download that `args` asks for into tasks, once the size of
/// the resource is known.
///
/// Where the command line names no output file, the file is named after
/// the last component of the URL's path. Which name that is, if any, is
/// for the platform's rules on paths to say; whatever they say, the result
/// is the one that [`plan_download_chunks`] gives for an output path that
/// fits the command line.
pub fn calculate_download_chunks(args: &CommandLineArgs, total_size: u64) -> (tasks: Result<
    Vec<DownloadTask>,
    AppError,
>)
    ensures
        exists|path: Result<Seq<char>, AppErrorView>|
            output_path_fits(args@, path) && #[trigger] download_chunks_of(args@, total_size, path)
                == chunks_view(tasks),
        chunks_wf(tasks),
{
    let output_path: Result<String, AppError> = match &args.output {
        Some(path) => Ok(path.clone()),
        None => match parse_url(args.url.as_str()) {
            Err(message) => Err(AppError::UrlParseError(message)),
            Ok(url) => derive_output_path(&args.output, path_file_name(url.path.as_str())),
        },
    };
    let ghost chosen = path_view(output_path);
    let tasks = plan_download_chunks(args, total_size, output_path);
    proof {
        assert(output_path_fits(args@, chosen));
        assert(download_chunks_of(args@, total_size, chosen) == chunks_view(tasks));
    }
    tasks
}

} // verus!

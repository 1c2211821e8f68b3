//! The search daemon's protocol: what is asked, how messages are framed, and
//! what becomes of the answers.
//!
//! A request is framed as type, format and big-endian length, a response as
//! status and big-endian length.

use vstd::prelude::*;
use vstd::string::*;
use crate::order::{is_stable_sort, lemma_sorted_exists, sort, sorted, Ranked};
use crate::text::{join_path, path_below, push_text, texts};

verus! {

pub const MSG_TYPE_QUERY: u8 = 0;

pub const MSG_TYPE_ACTIVATE: u8 = 1;

pub const FORMAT_PROTOBUF: u8 = 0;

pub const RESP_QUERY_ITEM: u8 = 0;

pub const RESP_QUERY_ASYNC_ITEM: u8 = 1;

pub const RESP_QUERY_NO_RESULTS: u8 = 254;

pub const RESP_QUERY_DONE: u8 = 255;

/// One result of a search.
#[derive(Debug, PartialEq, Eq)]
pub struct SearchResult {
    pub identifier: String,
    pub text: String,
    pub subtext: String,
    pub icon: String,
    pub provider: String,
    pub score: i32,
}

impl Ranked for SearchResult {
    /// The higher score first.
    open spec fn leq(&self, other: &Self) -> bool {
        self.score >= other.score
    }

    proof fn total(a: &Self, b: &Self) {
    }

    proof fn transitive(a: &Self, b: &Self, c: &Self) {
    }

    fn no_later(&self, other: &Self) -> (r: bool) {
        self.score >= other.score
    }
}

/// Where the daemon listens.
pub fn socket_path(runtime_dir: Option<&str>) -> (r: String)
    ensures
        r@ == match runtime_dir {
            Some(dir) => path_below(dir@, "elephant/elephant.sock"@),
            None => "/tmp/elephant/elephant.sock"@,
        },
{
    match runtime_dir {
        Some(dir) => join_path(dir, "elephant/elephant.sock"),
        None => "/tmp/elephant/elephant.sock".to_owned(),
    }
}

/// A search.
#[derive(Debug, PartialEq, Eq)]
pub struct QueryRequest {
    pub providers: Vec<String>,
    pub query: String,
    pub maxresults: i32,
}

/// The activation of a result.
#[derive(Debug, PartialEq, Eq)]
pub struct ActivateRequest {
    pub provider: String,
    pub identifier: String,
    pub action: String,
    pub query: String,
}

/// The texts of string slices.
pub open spec fn slices(v: Seq<&str>) -> Seq<Seq<char>> {
    v.map_values(|s: &str| s@)
}

/// A search with these providers for up to so many results.
pub fn query(search_text: &str, providers: &[&str], max_results: i32) -> (r: QueryRequest)
    ensures
        r.query@ == search_text@,
        texts(r.providers@) == slices(providers@),
        r.maxresults == max_results,
{
    let mut list: Vec<String> = Vec::new();
    let mut i: usize = 0;
    assert(texts(list@) =~= slices(providers@).take(0));
    while i < providers.len()
        invariant
            i <= providers@.len(),
            texts(list@) == slices(providers@).take(i as int),
        decreases providers@.len() - i,
    {
        push_text(&mut list, providers[i].to_owned());
        assert(texts(list@) =~= slices(providers@).take(i + 1));
        i += 1;
    }
    assert(texts(list@) =~= slices(providers@));
    QueryRequest { providers: list, query: search_text.to_owned(), maxresults: max_results }
}

/// The activation of a result, by selecting it.
pub fn activate(provider: &str, identifier: &str, query_text: &str) -> (r: ActivateRequest)
    ensures
        r.provider@ == provider@,
        r.identifier@ == identifier@,
        r.action@ == "select"@,
        r.query@ == query_text@,
{
    ActivateRequest {
        provider: provider.to_owned(),
        identifier: identifier.to_owned(),
        action: "select".to_owned(),
        query: query_text.to_owned(),
    }
}

// ── Framing ────────────────────────────────────────────────────────────

/// A number as four bytes, the highest first.
pub open spec fn big_endian(n: u32) -> Seq<u8> {
    seq![
        (n / 0x100_0000) as u8,
        (n / 0x1_0000 % 0x100) as u8,
        (n / 0x100 % 0x100) as u8,
        (n % 0x100) as u8,
    ]
}

/// A request on the wire; its length field holds the length modulo 2^32.
pub open spec fn framed(msg_type: u8, payload: Seq<u8>) -> Seq<u8> {
    seq![msg_type, FORMAT_PROTOBUF] + big_endian((payload.len() % 0x1_0000_0000) as u32) + payload
}

/// Frames a request.
pub fn frame(msg_type: u8, payload: &[u8]) -> (r: Vec<u8>)
    ensures
        r@ == framed(msg_type, payload@),
{
    let n: u32 = (payload.len() as u64 % 0x1_0000_0000) as u32;
    let mut buf: Vec<u8> = Vec::new();
    buf.push(msg_type);
    buf.push(FORMAT_PROTOBUF);
    buf.push((n / 0x100_0000) as u8);
    buf.push((n / 0x1_0000 % 0x100) as u8);
    buf.push((n / 0x100 % 0x100) as u8);
    buf.push((n % 0x100) as u8);
    let ghost head = buf@;
    assert(head =~= seq![msg_type, FORMAT_PROTOBUF] + big_endian(n));
    let mut i: usize = 0;
    assert(buf@ =~= head + payload@.take(0));
    while i < payload.len()
        invariant
            i <= payload@.len(),
            buf@ == head + payload@.take(i as int),
        decreases payload@.len() - i,
    {
        buf.push(payload[i]);
        assert(payload@.take(i + 1) =~= payload@.take(i as int).push(payload@[i as int]));
        assert(buf@ =~= head + payload@.take(i + 1));
        i += 1;
    }
    assert(payload@.take(payload@.len() as int) =~= payload@);
    buf
}

/// The number that four bytes stand for, the highest first.
pub open spec fn number(a: u8, b: u8, c: u8, d: u8) -> int {
    a * 0x100_0000 + b * 0x1_0000 + c * 0x100 + d
}

/// Reads the header of a response: its status and the length of its payload.
pub fn response_header(header: &[u8; 5]) -> (r: (u8, u32))
    ensures
        r.0 == header@[0],
        r.1 == number(header@[1], header@[2], header@[3], header@[4]),
{
    let length: u32 = header[1] as u32 * 0x100_0000 + header[2] as u32 * 0x1_0000 + header[3] as u32
        * 0x100 + header[4] as u32;
    (header[0], length)
}

/// A length survives the way onto the wire and back.
pub proof fn law_lengths_survive_the_wire(n: u32)
    ensures
        number(big_endian(n)[0], big_endian(n)[1], big_endian(n)[2], big_endian(n)[3]) == n,
{
    let s = big_endian(n);
    assert(n / 0x100_0000 < 0x100);
    assert(s[0] as int == n as int / 0x100_0000);
    assert(s[1] as int == n as int / 0x1_0000 % 0x100);
    assert(s[2] as int == n as int / 0x100 % 0x100);
    assert(s[3] as int == n as int % 0x100);
}

// ── Answers ────────────────────────────────────────────────────────────

/// Why reading from the daemon stopped.
#[derive(Debug, Clone, Copy, PartialEq, Eq, Structural)]
pub enum Stopped {
    /// Nothing came in time.
    TimedOut,
    Failed,
}

/// What to do after the header of a response.
#[derive(Debug, Clone, Copy, PartialEq, Eq, Structural)]
pub enum AfterHeader {
    /// The search is over.
    Finish,
    /// Read the next header.
    Next,
    /// Read so many bytes, and hand over the result they hold.
    ReadItem(u32),
    /// Read and drop so many bytes, whether or not they can be read.
    Skip(u32),
    /// The search failed.
    Fail,
}

/// What to do after the header of a response, or after reading it failed.
/// Where nothing comes in time, what came so far is the answer.
pub fn after_header(header: Result<(u8, u32), Stopped>) -> (r: AfterHeader)
    ensures
        r == match header {
            Err(Stopped::TimedOut) => AfterHeader::Finish,
            Err(Stopped::Failed) => AfterHeader::Fail,
            Ok((status, length)) => if status == RESP_QUERY_DONE || status
                == RESP_QUERY_NO_RESULTS {
                AfterHeader::Finish
            } else if length == 0 {
                AfterHeader::Next
            } else if status == RESP_QUERY_ITEM || status == RESP_QUERY_ASYNC_ITEM {
                AfterHeader::ReadItem(length)
            } else {
                AfterHeader::Skip(length)
            },
        },
{
    match header {
        Err(Stopped::TimedOut) => AfterHeader::Finish,
        Err(Stopped::Failed) => AfterHeader::Fail,
        Ok((status, length)) => {
            if status == RESP_QUERY_DONE || status == RESP_QUERY_NO_RESULTS {
                AfterHeader::Finish
            } else if length == 0 {
                AfterHeader::Next
            } else if status == RESP_QUERY_ITEM || status == RESP_QUERY_ASYNC_ITEM {
                AfterHeader::ReadItem(length)
            } else {
                AfterHeader::Skip(length)
            }
        },
    }
}

/// What to do after the payload of a result.
#[derive(Debug, Clone, Copy, PartialEq, Eq, Structural)]
pub enum AfterPayload {
    /// Read the next header.
    Next,
    /// The search failed.
    Fail,
}

/// The results that are shown: the best of them, as many as were asked for.
pub open spec fn bounded_results(found: Seq<SearchResult>, max_results: i32) -> Seq<SearchResult> {
    let all = sorted(found);
    if max_results < 0 || all.len() <= max_results {
        all
    } else {
        all.take(max_results as int)
    }
}

/// However many results the daemon sends, no more are shown than were asked
/// for, and none that is left out has a higher score than one that is shown.
pub proof fn law_the_best_results_are_shown(
    found: Seq<SearchResult>,
    max_results: i32,
    i: int,
    j: int,
)
    requires
        max_results >= 0,
        0 <= i < bounded_results(found, max_results).len() <= j < sorted(found).len(),
    ensures
        bounded_results(found, max_results).len() <= max_results,
        bounded_results(found, max_results)[i].score >= sorted(found)[j].score,
{
    lemma_sorted_exists(found);
    let all = sorted(found);
    assert(all[i].leq(&all[j]));
}

/// A search under way: what came so far.
#[derive(Debug)]
pub struct Search {
    results: Vec<SearchResult>,
}

impl View for Search {
    type V = Seq<SearchResult>;

    closed spec fn view(&self) -> Seq<SearchResult> {
        self.results@
    }
}

impl Search {
    /// Nothing came yet.
    pub fn new() -> (r: Search)
        ensures
            r@.len() == 0,
    {
        Search { results: Vec::new() }
    }

    /// A payload was read; one without a result, or that is none, counts for
    /// nothing.
    pub fn item(&mut self, result: Option<SearchResult>)
        ensures
            final(self)@ == match result {
                Some(r) => old(self)@.push(r),
                None => old(self)@,
            },
    {
        if let Some(r) = result {
            self.results.push(r);
        }
    }

    /// What becomes of a search once the payload of a result was read, or could
    /// not be: a result that is there is kept, one that could not be read ends
    /// the search, even where it only took too long.
    pub fn after_payload(&mut self, read: Result<Option<SearchResult>, Stopped>) -> (r: AfterPayload)
        ensures
            r == match read {
                Ok(_) => AfterPayload::Next,
                Err(_) => AfterPayload::Fail,
            },
            final(self)@ == match read {
                Ok(Some(result)) => old(self)@.push(result),
                _ => old(self)@,
            },
    {
        match read {
            Ok(result) => {
                self.item(result);
                AfterPayload::Next
            },
            Err(_) => AfterPayload::Fail,
        }
    }

    /// The results in the order they are shown: the highest score first, those
    /// with the same score in the order they came, and no more than were asked
    /// for. A negative bound asks for all.
    pub fn finish(self, max_results: i32) -> (r: Vec<SearchResult>)
        ensures
            r@ == bounded_results(self@, max_results),
            max_results >= 0 ==> r@.len() <= max_results,
    {
        let mut list = self.ranked();
        if max_results >= 0 {
            let max: usize = max_results as usize;
            let ghost all = list@;
            list.truncate(max);
            assert(list@ =~= if all.len() <= max_results {
                all
            } else {
                all.take(max_results as int)
            });
        }
        list
    }

    fn ranked(self) -> (r: Vec<SearchResult>)
        ensures
            is_stable_sort(r@, self@),
            r@ == sorted(self@),
    {
        sort(self.results)
    }
}

/// A request on the wire is its type, the format, the length of its payload in
/// four bytes, the highest first, and the payload.
pub proof fn law_a_frame_carries_its_payload(msg_type: u8, payload: Seq<u8>)
    requires
        payload.len() <= u32::MAX,
    ensures
        ({
            let f = framed(msg_type, payload);
            &&& f.len() == payload.len() + 6
            &&& f[0] == msg_type
            &&& f[1] == 0
            &&& f[2] * 0x100_0000 + f[3] * 0x1_0000 + f[4] * 0x100 + f[5] == payload.len()
            &&& f.skip(6) == payload
        }),
        MSG_TYPE_QUERY == 0,
        MSG_TYPE_ACTIVATE == 1,
        RESP_QUERY_ITEM == 0,
        RESP_QUERY_ASYNC_ITEM == 1,
        RESP_QUERY_NO_RESULTS == 254,
        RESP_QUERY_DONE == 255,
{
    let n = payload.len() as u32;
    law_lengths_survive_the_wire(n);
    let f = framed(msg_type, payload);
    assert(f.skip(6) =~= payload);
    assert(f[2] == big_endian(n)[0] && f[3] == big_endian(n)[1] && f[4] == big_endian(n)[2] && f[5]
        == big_endian(n)[3]);
}

/// What is shown is in the order of the scores, the highest first, with those of
/// one score as they came; all of it, but for what is beyond the bound. A
/// negative bound is none.
pub proof fn law_results_come_by_score(found: Seq<SearchResult>, max_results: i32, i: int, j: int)
    ensures
        ({
            let r = bounded_results(found, max_results);
            &&& 0 <= i < j < r.len() ==> r[i].score >= r[j].score
            &&& max_results < 0 || found.len() <= max_results ==> r.to_multiset()
                == found.to_multiset() && r.len() == found.len()
            &&& 0 <= max_results < found.len() ==> r.len() == max_results
            &&& r == sorted(found).take(r.len() as int)
            &&& is_stable_sort(sorted(found), found)
        }),
{
    lemma_sorted_exists(found);
    let all = sorted(found);
    let r = bounded_results(found, max_results);
    all.to_multiset_ensures();
    found.to_multiset_ensures();
    assert(all.len() == found.len());
    assert(all.take(all.len() as int) =~= all);
    if 0 <= i < j < r.len() {
        assert(all[i].leq(&all[j]));
    }
}

} // verus!

use vstd::prelude::*;

use crate::error::{is_invalid_page_range, AppError, ValidationError};
use crate::text::{
    chars_of, decimal, parse_u32_at, parse_u32_spec, push_char, push_decimal, split_bounds,
    split_on, string_of, trim, trim_bounds,
};

verus! {

/// An inclusive, one-based interval of page numbers.
#[derive(Clone, Copy, Debug, PartialEq, Eq, Structural)]
pub struct PageRange {
    pub start: u32,
    pub end: u32,
}

impl PageRange {
    /// Page numbers start at one and the interval is not empty.
    pub open spec fn wf(self) -> bool {
        1 <= self.start <= self.end
    }

    /// The interval's pages, in ascending order.
    pub open spec fn pages(self) -> Seq<u32> {
        Seq::new((self.end - self.start + 1) as nat, |i: int| (self.start + i) as u32)
    }

    /// The interval's textual form: `N` for a single page, `N-M` otherwise.
    pub open spec fn text(self) -> Seq<char> {
        if self.start == self.end {
            decimal(self.start as nat)
        } else {
            decimal(self.start as nat) + seq!['-'] + decimal(self.end as nat)
        }
    }

    /// Fails with `InvalidPageRange` when `start < 1` or `end < start`.
    pub fn new(start: u32, end: u32) -> (r: Result<PageRange, AppError>)
        ensures
            r is Ok <==> (1 <= start && start <= end),
            r is Ok ==> r->Ok_0 == (PageRange { start, end }),
            r is Err ==> is_invalid_page_range(r->Err_0),
    {
        if start < 1 || end < start {
            let mut text = String::new();
            push_decimal(&mut text, start as u64);
            push_char(&mut text, '-');
            push_decimal(&mut text, end as u64);
            Err(AppError::Validation(ValidationError::InvalidPageRange { range: text }))
        } else {
            Ok(PageRange { start, end })
        }
    }

    /// The range of one page.
    pub fn single(page: u32) -> (r: Result<PageRange, AppError>)
        ensures
            r is Ok <==> page >= 1,
            r is Ok ==> r->Ok_0 == (PageRange { start: page, end: page }),
            r is Err ==> is_invalid_page_range(r->Err_0),
    {
        PageRange::new(page, page)
    }

    pub fn contains(&self, page: u32) -> (r: bool)
        ensures
            r == (self.start <= page && page <= self.end),
    {
        page >= self.start && page <= self.end
    }

    pub fn page_count(&self) -> (r: u32)
        requires
            self.wf(),
        ensures
            r == self.end - self.start + 1,
    {
        self.end - self.start + 1
    }

    pub fn to_string(&self) -> (r: String)
        ensures
            r@ == self.text(),
    {
        let mut r = String::new();
        push_decimal(&mut r, self.start as u64);
        if self.start != self.end {
            push_char(&mut r, '-');
            push_decimal(&mut r, self.end as u64);
        }
        assert(r@ =~= self.text());
        r
    }

    /// Parses `N` or `N-M` (see `parse_token`).
    pub fn from_str(s: &str) -> (r: Result<PageRange, AppError>)
        ensures
            r is Ok <==> parse_token(s@) is Some,
            r is Ok ==> r->Ok_0 == parse_token(s@)->0,
            r is Err ==> is_invalid_page_range(r->Err_0),
    {
        let cs = chars_of(s);
        assert(cs@.subrange(0, cs.len() as int) =~= s@);
        parse_token_at(&cs, 0, cs.len())
    }

    /// The interval's pages, in ascending order.
    pub fn expand(&self) -> (r: Vec<u32>)
        requires
            self.wf(),
        ensures
            r@ == self.pages(),
    {
        let mut r: Vec<u32> = Vec::new();
        let mut p: u32 = self.start;
        loop
            invariant
                self.start <= p <= self.end,
                r@ == self.pages().subrange(0, p - self.start),
            decreases self.end - p,
        {
            r.push(p);
            if p == self.end {
                assert(r@ =~= self.pages());
                return r;
            }
            p = p + 1;
            assert(r@ =~= self.pages().subrange(0, p - self.start));
        }
    }
}

/// The range that one token spells: `N` for `{N,N}`, `N-M` for `{N,M}`, with
/// decimal numbers that fit in a `u32`, at least one and `N <= M`.
pub open spec fn parse_token(t: Seq<char>) -> Option<PageRange> {
    let parts = split_on(t, '-');
    if parts.len() == 1 {
        match parse_u32_spec(parts[0]) {
            Some(p) => if p >= 1 {
                Some(PageRange { start: p, end: p })
            } else {
                None
            },
            None => None,
        }
    } else if parts.len() == 2 {
        match (parse_u32_spec(parts[0]), parse_u32_spec(parts[1])) {
            (Some(a), Some(b)) => if 1 <= a && a <= b {
                Some(PageRange { start: a, end: b })
            } else {
                None
            },
            _ => None,
        }
    } else {
        None
    }
}

/// The non-empty pieces, once trimmed.
pub open spec fn nonempty_trimmed(pieces: Seq<Seq<char>>) -> Seq<Seq<char>>
    decreases pieces.len(),
{
    if pieces.len() == 0 {
        Seq::empty()
    } else {
        let rest = nonempty_trimmed(pieces.drop_last());
        let t = trim(pieces.last());
        if t.len() > 0 {
            rest.push(t)
        } else {
            rest
        }
    }
}

/// The tokens of a range list: comma-separated, trimmed, empty ones dropped.
pub open spec fn range_tokens(s: Seq<char>) -> Seq<Seq<char>> {
    nonempty_trimmed(split_on(s, ','))
}

/// No two ranges share a page.
pub open spec fn no_overlaps(rs: Seq<PageRange>) -> bool {
    forall|i: int, j: int|
        0 <= i < rs.len() && 0 <= j < rs.len() && i != j ==> rs[i].end < rs[j].start
            || rs[j].end < rs[i].start
}

/// Each token parses.
pub open spec fn tokens_parse(ts: Seq<Seq<char>>) -> bool {
    forall|i: int| 0 <= i < ts.len() ==> (#[trigger] parse_token(ts[i])) is Some
}

pub open spec fn parsed_tokens(ts: Seq<Seq<char>>) -> Seq<PageRange> {
    Seq::new(ts.len(), |i: int| parse_token(ts[i])->0)
}

/// What a textual range list denotes: the ranges of its tokens in input
/// order, when there is at least one token, each parses and no two overlap.
pub open spec fn parse_ranges_spec(s: Seq<char>) -> Option<Seq<PageRange>> {
    let ts = range_tokens(s);
    if ts.len() > 0 && tokens_parse(ts) && no_overlaps(parsed_tokens(ts)) {
        Some(parsed_tokens(ts))
    } else {
        None
    }
}

fn invalid_range(s: &Vec<char>, lo: usize, hi: usize) -> (r: AppError)
    requires
        lo <= hi <= s.len(),
    ensures
        is_invalid_page_range(r),
{
    let mut text: Vec<char> = Vec::new();
    let mut i: usize = lo;
    while i < hi
        invariant
            lo <= i <= hi <= s.len(),
        decreases hi - i,
    {
        text.push(s[i]);
        i = i + 1;
    }
    AppError::Validation(ValidationError::InvalidPageRange { range: string_of(&text) })
}

/// Parses the token `s[lo..hi]`.
fn parse_token_at(s: &Vec<char>, lo: usize, hi: usize) -> (r: Result<PageRange, AppError>)
    requires
        lo <= hi <= s.len(),
    ensures
        r is Ok <==> parse_token(s@.subrange(lo as int, hi as int)) is Some,
        r is Ok ==> r->Ok_0 == parse_token(s@.subrange(lo as int, hi as int))->0,
        r is Err ==> is_invalid_page_range(r->Err_0),
{
    let parts = split_bounds(s, lo, hi, '-');
    let ghost t = s@.subrange(lo as int, hi as int);
    if parts.len() == 1 {
        let (a, b) = parts[0];
        match parse_u32_at(s, a, b) {
            Some(p) => {
                if p >= 1 {
                    return Ok(PageRange { start: p, end: p });
                }
            },
            None => {},
        }
    } else if parts.len() == 2 {
        let (a0, b0) = parts[0];
        let (a1, b1) = parts[1];
        let x = parse_u32_at(s, a0, b0);
        let y = parse_u32_at(s, a1, b1);
        match (x, y) {
            (Some(start), Some(end)) => {
                if 1 <= start && start <= end {
                    return Ok(PageRange { start, end });
                }
            },
            _ => {},
        }
    }
    Err(invalid_range(s, lo, hi))
}

/// Turns a textual range specification into page ranges.
pub struct PageRangeParser;

impl PageRangeParser {
    /// The ranges of the tokens of `input`, in order; fails with
    /// `InvalidPageRange` when a token does not parse.
    pub fn list_ranges(input: &str) -> (r: Result<Vec<PageRange>, AppError>)
        ensures
            r is Ok <==> tokens_parse(range_tokens(input@)),
            r is Ok ==> r->Ok_0@ == parsed_tokens(range_tokens(input@)),
            r is Err ==> is_invalid_page_range(r->Err_0),
    {
        let s = chars_of(input);
        assert(s@.subrange(0, s.len() as int) =~= input@);
        let pieces = split_bounds(&s, 0, s.len(), ',');
        let ghost all = split_on(input@, ',');
        let mut ranges: Vec<PageRange> = Vec::new();
        let mut k: usize = 0;
        while k < pieces.len()
            invariant
                all == split_on(input@, ','),
                pieces.len() == all.len(),
                k <= pieces.len(),
                forall|j: int|
                    0 <= j < pieces.len() ==> (#[trigger] pieces[j]).0 <= pieces[j].1 <= s.len()
                        && s@.subrange(pieces[j].0 as int, pieces[j].1 as int) == all[j],
                tokens_parse(nonempty_trimmed(all.subrange(0, k as int))),
                ranges@ == parsed_tokens(nonempty_trimmed(all.subrange(0, k as int))),
            decreases pieces.len() - k,
        {
            let (lo, hi) = pieces[k];
            let (a, b) = trim_bounds(&s, lo, hi);
            let ghost before = nonempty_trimmed(all.subrange(0, k as int));
            assert(all.subrange(0, k + 1).drop_last() =~= all.subrange(0, k as int));
            assert(all.subrange(0, k + 1).last() == all[k as int]);
            if a < b {
                match parse_token_at(&s, a, b) {
                    Ok(range) => {
                        ranges.push(range);
                    },
                    Err(e) => {
                        let ghost after = nonempty_trimmed(all.subrange(0, k + 1));
                        assert(after == before.push(s@.subrange(a as int, b as int)));
                        assert(after[after.len() - 1] == s@.subrange(a as int, b as int));
                        proof {
                            lemma_tokens_fail_later(all, k + 1);
                            assert(range_tokens(input@) == nonempty_trimmed(all));
                            assert(!tokens_parse(range_tokens(input@)));
                        }
                        return Err(e);
                    },
                }
            }
            k = k + 1;
            assert(ranges@ =~= parsed_tokens(nonempty_trimmed(all.subrange(0, k as int))));
        }
        assert(all.subrange(0, k as int) =~= all);
        Ok(ranges)
    }

    /// Parses a comma-separated list of `N` and `N-M` tokens (see
    /// `parse_ranges_spec`); every failure is an `InvalidPageRange`.
    pub fn parse_ranges(input: &str) -> (r: Result<Vec<PageRange>, AppError>)
        ensures
            r is Ok <==> parse_ranges_spec(input@) is Some,
            r is Ok ==> r->Ok_0@ == parse_ranges_spec(input@)->0,
            r is Err ==> is_invalid_page_range(r->Err_0),
    {
        let ranges = match PageRangeParser::list_ranges(input) {
            Ok(rs) => rs,
            Err(e) => {
                return Err(e);
            },
        };
        if ranges.len() == 0 {
            let empty: Vec<char> = Vec::new();
            return Err(invalid_range(&empty, 0, 0));
        }
        match PageRangeParser::validate_no_overlaps(&ranges) {
            Ok(()) => Ok(ranges),
            Err(e) => Err(e),
        }
    }

    /// Builds ranges from `(start, end)` pairs (a single page `N` is `(N, N)`),
    /// in the given order; fails with `InvalidPageRange` when a pair is not a
    /// range or two ranges share a page.
    pub fn from_pairs(pairs: &Vec<(u32, u32)>) -> (r: Result<Vec<PageRange>, AppError>)
        ensures
            r is Ok <==> (forall|i: int| 0 <= i < pairs.len() ==> 1 <= (#[trigger] pairs@[i]).0
                && pairs@[i].0 <= pairs@[i].1) && no_overlaps(
                pairs@.map_values(|p: (u32, u32)| PageRange { start: p.0, end: p.1 }),
            ),
            r is Ok ==> r->Ok_0@ == pairs@.map_values(
                |p: (u32, u32)| PageRange { start: p.0, end: p.1 },
            ),
            r is Err ==> is_invalid_page_range(r->Err_0),
    {
        let mut ranges: Vec<PageRange> = Vec::new();
        let mut i: usize = 0;
        while i < pairs.len()
            invariant
                i <= pairs.len(),
                forall|k: int| 0 <= k < i ==> 1 <= (#[trigger] pairs@[k]).0 && pairs@[k].0 <= pairs@[k].1,
                ranges@ == pairs@.subrange(0, i as int).map_values(
                    |p: (u32, u32)| PageRange { start: p.0, end: p.1 },
                ),
            decreases pairs.len() - i,
        {
            let (start, end) = pairs[i];
            match PageRange::new(start, end) {
                Ok(range) => {
                    ranges.push(range);
                },
                Err(e) => {
                    return Err(e);
                },
            }
            i = i + 1;
            assert(ranges@ =~= pairs@.subrange(0, i as int).map_values(
                |p: (u32, u32)| PageRange { start: p.0, end: p.1 },
            ));
        }
        assert(pairs@.subrange(0, i as int) =~= pairs@);
        match PageRangeParser::validate_no_overlaps(&ranges) {
            Ok(()) => Ok(ranges),
            Err(e) => Err(e),
        }
    }

    /// Fails with `InvalidPageRange` exactly when two ranges share a page.
    pub fn validate_no_overlaps(ranges: &Vec<PageRange>) -> (r: Result<(), AppError>)
        ensures
            r is Ok <==> no_overlaps(ranges@),
            r is Err ==> is_invalid_page_range(r->Err_0),
    {
        let n = ranges.len();
        let mut i: usize = 0;
        while i < n
            invariant
                n == ranges.len(),
                i <= n,
                forall|x: int, y: int|
                    0 <= x < i && 0 <= y < n && x != y ==> ranges@[x].end < ranges@[y].start
                        || ranges@[y].end < ranges@[x].start,
            decreases n - i,
        {
            let mut j: usize = 0;
            while j < n
                invariant
                    n == ranges.len(),
                    i < n,
                    j <= n,
                    forall|x: int, y: int|
                        0 <= x < i && 0 <= y < n && x != y ==> ranges@[x].end < ranges@[y].start
                            || ranges@[y].end < ranges@[x].start,
                    forall|y: int|
                        0 <= y < j && y != i ==> ranges@[i as int].end < ranges@[y].start
                            || ranges@[y].end < ranges@[i as int].start,
                decreases n - j,
            {
                if j != i {
                    let a = ranges[i];
                    let b = ranges[j];
                    if !(a.end < b.start || b.end < a.start) {
                        let mut text = a.to_string();
                        push_char(&mut text, ',');
                        let other = b.to_string();
                        text.append(other.as_str());
                        return Err(
                            AppError::Validation(ValidationError::InvalidPageRange { range: text }),
                        );
                    }
                }
                j = j + 1;
            }
            i = i + 1;
        }
        Ok(())
    }

    /// The pages of each range, one range after the other.
    pub fn ranges_to_page_list(ranges: &Vec<PageRange>) -> (r: Vec<u32>)
        requires
            forall|i: int| 0 <= i < ranges.len() ==> (#[trigger] ranges[i]).wf(),
        ensures
            r@ == page_list(ranges@),
    {
        let mut r: Vec<u32> = Vec::new();
        let mut i: usize = 0;
        while i < ranges.len()
            invariant
                i <= ranges.len(),
                forall|k: int| 0 <= k < ranges.len() ==> (#[trigger] ranges[k]).wf(),
                r@ == page_list(ranges@.subrange(0, i as int)),
            decreases ranges.len() - i,
        {
            let mut pages = ranges[i].expand();
            assert(ranges@.subrange(0, i + 1).drop_last() =~= ranges@.subrange(0, i as int));
            r.append(&mut pages);
            i = i + 1;
        }
        assert(ranges@.subrange(0, i as int) =~= ranges@);
        r
    }
}

/// Once a token fails to parse, the whole list's tokens do not all parse.
proof fn lemma_tokens_fail_later(all: Seq<Seq<char>>, k: int)
    requires
        0 <= k <= all.len(),
        nonempty_trimmed(all.subrange(0, k as int)).len() > 0,
        parse_token(
            nonempty_trimmed(all.subrange(0, k as int)).last(),
        ) is None,
    ensures
        !tokens_parse(nonempty_trimmed(all)),
{
    lemma_nonempty_trimmed_prefix(all, k);
    let p = nonempty_trimmed(all.subrange(0, k as int));
    let q = nonempty_trimmed(all);
    assert(q[p.len() - 1] == p.last());
}

/// The tokens of a prefix of the pieces are a prefix of all the tokens.
pub proof fn lemma_nonempty_trimmed_prefix(all: Seq<Seq<char>>, k: int)
    requires
        0 <= k <= all.len(),
    ensures
        nonempty_trimmed(all.subrange(0, k as int)).len() <= nonempty_trimmed(all).len(),
        nonempty_trimmed(all.subrange(0, k as int)) =~= nonempty_trimmed(all).subrange(
            0,
            nonempty_trimmed(all.subrange(0, k as int)).len() as int,
        ),
    decreases all.len() - k,
{
    if k < all.len() {
        lemma_nonempty_trimmed_prefix(all, k + 1);
        assert(all.subrange(0, k + 1).drop_last() =~= all.subrange(0, k as int));
    } else {
        assert(all.subrange(0, k as int) =~= all);
    }
}

/// All pages of the ranges, one range after the other.
pub open spec fn page_list(rs: Seq<PageRange>) -> Seq<u32>
    decreases rs.len(),
{
    if rs.len() == 0 {
        Seq::empty()
    } else {
        page_list(rs.drop_last()) + rs.last().pages()
    }
}

/// The tokens of several lists, one list after the other.
pub open spec fn all_tokens(lists: Seq<Seq<char>>) -> Seq<Seq<char>>
    decreases lists.len(),
{
    if lists.len() == 0 {
        Seq::empty()
    } else {
        all_tokens(lists.drop_last()) + range_tokens(lists.last())
    }
}

/// Several range lists, read as one: there is at least one token, every
/// token parses, no two ranges share a page and none ends past `total`.
pub open spec fn page_lists_ok(lists: Seq<Seq<char>>, total: nat) -> bool {
    let ts = all_tokens(lists);
    &&& ts.len() > 0
    &&& tokens_parse(ts)
    &&& no_overlaps(parsed_tokens(ts))
    &&& forall|i: int| 0 <= i < ts.len() ==> (#[trigger] parsed_tokens(ts)[i]).end <= total
}

proof fn lemma_tokens_concat(a: Seq<Seq<char>>, b: Seq<Seq<char>>)
    ensures
        tokens_parse(a + b) <==> (tokens_parse(a) && tokens_parse(b)),
        tokens_parse(a + b) ==> parsed_tokens(a + b) == parsed_tokens(a) + parsed_tokens(b),
{
    if tokens_parse(a) && tokens_parse(b) {
        assert forall|i: int| 0 <= i < (a + b).len() implies (#[trigger] parse_token((a + b)[i])) is Some by {
            if i < a.len() {
                assert((a + b)[i] == a[i]);
            } else {
                assert((a + b)[i] == b[i - a.len()]);
            }
        }
    }
    if tokens_parse(a + b) {
        assert forall|i: int| 0 <= i < a.len() implies (#[trigger] parse_token(a[i])) is Some by {
            assert((a + b)[i] == a[i]);
        }
        assert forall|i: int| 0 <= i < b.len() implies (#[trigger] parse_token(b[i])) is Some by {
            assert((a + b)[a.len() + i] == b[i]);
        }
        assert(parsed_tokens(a + b) =~= parsed_tokens(a) + parsed_tokens(b));
    }
}

/// Checks lists of page ranges (`"1-5"`, `"7"`, `"9-12"`, comma-separated
/// within a list), read together, against a document of `total_pages` pages
/// (see `page_lists_ok`); every failure is an `InvalidPageRange`.
pub fn validate_ranges(ranges: &Vec<String>, total_pages: usize) -> (r: Result<(), AppError>)
    ensures
        r is Ok <==> page_lists_ok(ranges@.map_values(|s: String| s@), total_pages as nat),
        r is Err ==> is_invalid_page_range(r->Err_0),
{
    let ghost lists = ranges@.map_values(|s: String| s@);
    let mut all: Vec<PageRange> = Vec::new();
    let mut i: usize = 0;
    while i < ranges.len()
        invariant
            lists == ranges@.map_values(|s: String| s@),
            i <= ranges.len(),
            tokens_parse(all_tokens(lists.subrange(0, i as int))),
            all@ == parsed_tokens(all_tokens(lists.subrange(0, i as int))),
        decreases ranges.len() - i,
    {
        let ghost pre = all_tokens(lists.subrange(0, i as int));
        assert(lists.subrange(0, i + 1).drop_last() =~= lists.subrange(0, i as int));
        assert(lists.subrange(0, i + 1).last() == ranges@[i as int]@);
        proof {
            lemma_tokens_concat(pre, range_tokens(ranges@[i as int]@));
        }
        match PageRangeParser::list_ranges(ranges[i].as_str()) {
            Ok(mut rs) => {
                all.append(&mut rs);
            },
            Err(e) => {
                proof {
                    lemma_all_tokens_parse_prefix(lists, i + 1);
                }
                return Err(e);
            },
        }
        i = i + 1;
    }
    assert(lists.subrange(0, i as int) =~= lists);
    if all.len() == 0 {
        let empty: Vec<char> = Vec::new();
        return Err(invalid_range(&empty, 0, 0));
    }
    let mut k: usize = 0;
    while k < all.len()
        invariant
            k <= all.len(),
            lists == ranges@.map_values(|s: String| s@),
            all@ == parsed_tokens(all_tokens(lists)),
            forall|j: int| 0 <= j < k ==> (#[trigger] all@[j]).end <= total_pages,
        decreases all.len() - k,
    {
        if all[k].end as usize > total_pages {
            assert(parsed_tokens(all_tokens(lists))[k as int].end > total_pages);
            let text = all[k].to_string();
            return Err(AppError::Validation(ValidationError::InvalidPageRange { range: text }));
        }
        k = k + 1;
    }
    PageRangeParser::validate_no_overlaps(&all)
}

/// Once the tokens of a prefix of the lists fail to parse, those of all the lists do.
proof fn lemma_all_tokens_parse_prefix(lists: Seq<Seq<char>>, i: int)
    requires
        0 <= i <= lists.len(),
        !tokens_parse(all_tokens(lists.subrange(0, i))),
    ensures
        !tokens_parse(all_tokens(lists)),
    decreases lists.len() - i,
{
    if i < lists.len() {
        assert(lists.subrange(0, i + 1).drop_last() =~= lists.subrange(0, i));
        lemma_tokens_concat(all_tokens(lists.subrange(0, i)), range_tokens(lists.subrange(0, i + 1).last()));
        lemma_all_tokens_parse_prefix(lists, i + 1);
    } else {
        assert(lists.subrange(0, i) =~= lists);
    }
}

} // verus!

//! The shared discovery pagination protocol: every provider walks a
//! page-based listing endpoint by requesting pages of `PAGE_SIZE` records,
//! starting at page 1 and incrementing, accumulating all returned records,
//! and stopping at the first page shorter than `PAGE_SIZE`. An endpoint
//! holding an exact multiple of the page size therefore answers one extra
//! empty page, which is a zero-length success, not an error.

use crate::git::DiscoveryError;
use crate::PAGE_SIZE;
use vstd::arithmetic::div_mod::lemma_fundamental_div_mod_converse;
use vstd::prelude::*;

verus! {

/// State of one walk over a paged listing endpoint.
pub struct Paginator<T> {
    /// Every record accumulated so far, in listing order.
    pub items: Vec<T>,
    /// The page the next request asks for; pages count from 1.
    pub next_page: usize,
    /// How many page requests have been answered.
    pub requests: usize,
    /// Whether a short page has marked the listing exhausted.
    pub done: bool,
}

/// How many page requests a full walk makes over a listing of `k`
/// records: one request per full page, plus the final short or empty one.
pub open spec fn expected_requests(k: nat) -> nat {
    k / (PAGE_SIZE as nat) + 1
}

/// The request count in its ceiling form: walking `k` records takes
/// `ceil(k / PAGE_SIZE)` requests when `k` is not an exact multiple of
/// the page size, and one extra trailing empty request when it is.
pub proof fn lemma_expected_requests_ceil(k: nat)
    ensures
        k % (PAGE_SIZE as nat) == 0 ==> expected_requests(k) == k / (PAGE_SIZE as nat) + 1,
        k % (PAGE_SIZE as nat) != 0 ==> expected_requests(k) as int == (k + PAGE_SIZE - 1) / (
        PAGE_SIZE as int),
{
    let p = PAGE_SIZE as int;
    let q = k as int / p;
    let r = k as int % p;
    if k % (PAGE_SIZE as nat) != 0 {
        assert(k as int == q * p + r && 0 <= r < p) by {
            vstd::arithmetic::div_mod::lemma_fundamental_div_mod(k as int, p);
        }
        assert(k as int + p - 1 == (q + 1) * p + (r - 1)) by (nonlinear_arith)
            requires
                k as int == q * p + r,
        ;
        lemma_fundamental_div_mod_converse(k as int + p - 1, p, q + 1, r - 1);
    }
}

impl<T> Paginator<T> {
    /// The page counter always leads the request count by one: page `n`
    /// is the `n`-th request.
    pub open spec fn wf(&self) -> bool {
        self.next_page == self.requests + 1
    }

    /// A fresh walk: nothing accumulated, page 1 up next.
    pub fn new() -> (p: Self)
        ensures
            p.items@ == Seq::<T>::empty(),
            p.next_page == 1,
            p.requests == 0,
            !p.done,
            p.wf(),
    {
        Paginator { items: Vec::new(), next_page: 1, requests: 0, done: false }
    }

    /// The page to request next, or nothing once the walk is over.
    pub fn page_to_request(&self) -> (r: Option<usize>)
        ensures
            r == (if self.done {
                None::<usize>
            } else {
                Some(self.next_page)
            }),
    {
        if self.done {
            None
        } else {
            Some(self.next_page)
        }
    }

    /// Accumulates one fetched page and advances: the records are appended
    /// in order, the page index and request count move up by one, and a
    /// page shorter than `PAGE_SIZE` ends the walk.
    pub fn record_page(&mut self, page: Vec<T>)
        requires
            !old(self).done,
            old(self).wf(),
            old(self).next_page < usize::MAX,
        ensures
            final(self).items@ == old(self).items@ + page@,
            final(self).next_page == old(self).next_page + 1,
            final(self).requests == old(self).requests + 1,
            final(self).done == (page@.len() < PAGE_SIZE),
            final(self).wf(),
    {
        let mut page = page;
        self.done = page.len() < PAGE_SIZE;
        self.items.append(&mut page);
        self.next_page = self.next_page + 1;
        self.requests = self.requests + 1;
    }
}

/// Copies `v[start..end]` into a fresh vector.
pub fn copy_range<T: Copy>(v: &Vec<T>, start: usize, end: usize) -> (r: Vec<T>)
    requires
        start <= end <= v.len(),
    ensures
        r@ == v@.subrange(start as int, end as int),
{
    let mut r: Vec<T> = Vec::new();
    let mut j: usize = start;
    while j < end
        invariant
            start <= j <= end <= v.len(),
            r@ == v@.subrange(start as int, j as int),
        decreases end - j,
    {
        r.push(v[j]);
        proof {
            assert(r@ =~= v@.subrange(start as int, j as int + 1));
        }
        j += 1;
    }
    r
}

/// Whether an HTTP status answers a listing request successfully: only
/// the 2xx range counts; anything else aborts the source's discovery.
pub fn status_is_success(code: u16) -> (b: bool)
    ensures
        b == (200 <= code < 300),
{
    200 <= code && code < 300
}

/// Gate on one page response's status: a success status lets the page
/// through, any other status is the discovery error that aborts the
/// source, carrying the status it saw.
pub fn check_page_status(code: u16) -> (r: Result<(), DiscoveryError>)
    ensures
        (200 <= code < 300) ==> r is Ok,
        !(200 <= code < 300) ==> (r matches Err(e) && e matches DiscoveryError::HttpStatus(c)
            && c == code),
{
    if status_is_success(code) {
        Ok(())
    } else {
        Err(DiscoveryError::HttpStatus(code))
    }
}

/// Walks the protocol to exhaustion against a simulated endpoint holding
/// `all`, serving each requested page as the next `PAGE_SIZE`-record
/// slice. The walk accumulates exactly the endpoint's records, in order,
/// and issues exactly `expected_requests` page requests — in particular,
/// it terminates on every listing.
pub fn run_simulated<T: Copy>(all: &Vec<T>) -> (r: (Vec<T>, usize))
    ensures
        r.0@ == all@,
        r.1 == expected_requests(all@.len()),
{
    let ghost k = all@.len() as int;
    let n = all.len();
    let mut p = Paginator::<T>::new();
    while !p.done
        invariant
            p.wf(),
            k == n <= usize::MAX,
            !p.done ==> p.requests * (PAGE_SIZE as int) <= k && p.items@ == all@.take(
                p.requests * (PAGE_SIZE as int),
            ),
            p.done ==> p.items@ == all@ && (p.requests - 1) * (PAGE_SIZE as int) <= k < p.requests
                * (PAGE_SIZE as int),
            k == all@.len(),
        decreases k + PAGE_SIZE - p.requests * (PAGE_SIZE as int),
    {
        proof {
            assert(p.requests < usize::MAX) by (nonlinear_arith)
                requires
                    p.requests * (PAGE_SIZE as int) <= k,
                    k <= usize::MAX,
                    PAGE_SIZE == 100,
            ;
        }
        let offset = p.requests * PAGE_SIZE;
        let remaining = all.len() - offset;
        let take_n = if remaining < PAGE_SIZE {
            remaining
        } else {
            PAGE_SIZE
        };
        let page = copy_range(all, offset, offset + take_n);
        let ghost old_items = p.items@;
        p.record_page(page);
        proof {
            assert(p.items@ =~= all@.take(offset as int + take_n as int));
            if take_n == PAGE_SIZE {
                assert(p.requests * (PAGE_SIZE as int) == offset + PAGE_SIZE);
            } else {
                assert(p.items@ =~= all@);
            }
        }
    }
    proof {
        let q = p.requests as int - 1;
        let pg = PAGE_SIZE as int;
        assert(k == q * pg + (k - q * pg));
        lemma_fundamental_div_mod_converse(k, pg, q, k - q * pg);
    }
    let requests = p.requests;
    (p.items, requests)
}

} // verus!

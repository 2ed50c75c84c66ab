//! One-based pages of bounded size over a listing.

use crate::error::{refused, seen, ApiError, ErrorView, Status};
use vstd::arithmetic::mul::{lemma_mul_inequality, lemma_mul_is_distributive_sub_other_way};
use vstd::prelude::*;

verus! {

/// The page, the page size and the number of items before the page, for the
/// page and size that were asked for.
pub open spec fn page_window(
    page: Option<i64>,
    page_size: Option<i64>,
    message: Seq<char>,
) -> Result<(i64, i64, i64), ErrorView> {
    let p = page.unwrap_or(1);
    let n = page_size.unwrap_or(20);
    if p >= 1 && 1 <= n <= 100 && (p - 1) * n <= i64::MAX {
        Ok((p, n, ((p - 1) * n) as i64))
    } else {
        refused(Status::BadRequest, message)
    }
}

fn window(page: Option<i64>, page_size: Option<i64>, message: &str) -> (r: Result<
    (i64, i64, i64),
    ApiError,
>)
    ensures
        seen(r) == page_window(page, page_size, message@),
{
    let p: i64 = page.unwrap_or(1);
    let n: i64 = page_size.unwrap_or(20);
    if p < 1 || n < 1 || n > 100 {
        return Err(ApiError::bad_request(message));
    }
    let before: i64 = p - 1;
    proof {
        lemma_mul_inequality(0, before as int, n as int);
    }
    match before.checked_mul(n) {
        Some(offset) => Ok((p, n, offset)),
        None => Err(ApiError::bad_request(message)),
    }
}

/// The page of API keys that a request asks for.
#[derive(Clone, Copy, Debug)]
pub struct ApiKeyListQuery {
    pub page: Option<i64>,
    pub page_size: Option<i64>,
}

impl Default for ApiKeyListQuery {
    fn default() -> (r: ApiKeyListQuery)
        ensures
            r.page is None,
            r.page_size is None,
    {
        ApiKeyListQuery { page: None, page_size: None }
    }
}

impl ApiKeyListQuery {
    /// The page, its size and its offset; the first page of twenty by default.
    pub fn validated(self) -> (r: Result<(i64, i64, i64), ApiError>)
        ensures
            seen(r) == page_window(self.page, self.page_size, "invalid API key pagination"@),
    {
        window(self.page, self.page_size, "invalid API key pagination")
    }
}

/// The page of automation runs that a request asks for.
#[derive(Clone, Copy, Debug)]
pub struct AutomationRunListQuery {
    pub page: Option<i64>,
    pub page_size: Option<i64>,
}

impl Default for AutomationRunListQuery {
    fn default() -> (r: AutomationRunListQuery)
        ensures
            r.page is None,
            r.page_size is None,
    {
        AutomationRunListQuery { page: None, page_size: None }
    }
}

impl AutomationRunListQuery {
    /// The page, its size and its offset; the first page of twenty by default.
    pub fn validated(self) -> (r: Result<(i64, i64, i64), ApiError>)
        ensures
            seen(r) == page_window(self.page, self.page_size, "invalid automation run pagination"@),
    {
        window(self.page, self.page_size, "invalid automation run pagination")
    }
}

/// Pages of one size neither overlap nor leave a gap: the first starts at the
/// first item, a page starts where the one before it ends, and a later page
/// starts no earlier than an earlier one ends.
pub proof fn pages_tile_the_listing(p: i64, q: i64, n: i64, message: Seq<char>)
    requires
        1 <= p < q,
        page_window(Some(q), Some(n), message) is Ok,
    ensures
        page_window(Some(1i64), Some(n), message) == Ok::<(i64, i64, i64), ErrorView>((1, n, 0)),
        page_window(Some(p), Some(n), message) is Ok,
        page_window(Some(p), Some(n), message)->Ok_0.2 + n <= page_window(
            Some(q),
            Some(n),
            message,
        )->Ok_0.2,
        q == p + 1 ==> page_window(Some(p), Some(n), message)->Ok_0.2 + n == page_window(
            Some(q),
            Some(n),
            message,
        )->Ok_0.2,
{
    lemma_mul_inequality(0, p - 1, n as int);
    lemma_mul_inequality(p as int, q - 1, n as int);
    lemma_mul_is_distributive_sub_other_way(n as int, p as int, 1);
}

/// A page is given where it is a page and not too long, the first one of
/// twenty where nothing is said; it starts behind the pages before it.
pub proof fn pages_are_given_as_asked(
    page: Option<i64>,
    page_size: Option<i64>,
    message: Seq<char>,
)
    ensures
        page_window(None, None, message) == Ok::<(i64, i64, i64), ErrorView>((1, 20, 0)),
        page_window(page, page_size, message) is Ok <==> {
            &&& page is Some ==> page->0 >= 1
            &&& page_size is Some ==> 1 <= page_size->0 <= 100
            &&& page is Some ==> (page->0 - 1) * (if page_size is Some {
                page_size->0 as int
            } else {
                20
            }) <= i64::MAX
        },
        page_window(page, page_size, message) matches Ok((p, n, start)) ==> {
            &&& page is Some ==> p == page->0
            &&& page is None ==> p == 1
            &&& page_size is Some ==> n == page_size->0
            &&& page_size is None ==> n == 20
            &&& start == (p - 1) * n
        },
        page_window(page, page_size, message) matches Err(e) ==> e.status == Status::BadRequest
            && e.message == message,
{
    let p = page.unwrap_or(1);
    let n = page_size.unwrap_or(20);
    assert(p >= 1 && n >= 1 ==> 0 <= (p - 1) * n) by (nonlinear_arith);
    assert((1 - 1) * n == 0);
}

} // verus!

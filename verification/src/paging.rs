//! Paging of listed records, and the envelope of API answers.
use vstd::prelude::*;
use vstd::string::*;

verus! {

/// Paging asked for by a client.
#[derive(Clone, Debug)]
pub struct PaginationParams {
    pub page_no: Option<i64>,
    pub page_size: Option<i64>,
}

impl PaginationParams {
    /// The page number and size asked for, page 1 and `default_size` when
    /// not given.
    pub fn resolve(&self, default_size: i64) -> (r: (i64, i64))
        ensures
            r.0 == match self.page_no { Some(n) => n, None => 1 },
            r.1 == match self.page_size { Some(n) => n, None => default_size },
    {
        (
            match self.page_no {
                Some(n) => n,
                None => 1,
            },
            match self.page_size {
                Some(n) => n,
                None => default_size,
            },
        )
    }
}

/// Page number and size as used: at least 1 each.
pub open spec fn clamp_page(n: i64) -> int {
    if n < 1 {
        1
    } else {
        n as int
    }
}

/// The rows skipped before the page can be counted in `i64`.
pub open spec fn page_fits(page: i64, page_size: i64) -> bool {
    (clamp_page(page) - 1) * clamp_page(page_size) <= i64::MAX
}

/// The (limit, offset) of a page: pages and sizes below 1 count as 1, and
/// the page starts after the rows of the pages before it.
pub fn page_window(page: i64, page_size: i64) -> (r: (i64, i64))
    requires
        page_fits(page, page_size),
    ensures
        r.0 == clamp_page(page_size),
        r.1 == (clamp_page(page) - 1) * clamp_page(page_size),
        r.0 >= 1,
        r.1 >= 0,
{
    let page_no: i64 = if page < 1 { 1 } else { page };
    let page_sz: i64 = if page_size < 1 { 1 } else { page_size };
    assert(0 <= (page_no - 1) * page_sz) by (nonlinear_arith)
        requires
            page_no >= 1,
            page_sz >= 1,
    ;
    let offset = (page_no - 1) * page_sz;
    (page_sz, offset)
}

/// The (limit, offset) of a page, or `None` when the rows before the page
/// cannot be counted in `i64`.
pub fn try_page_window(page: i64, page_size: i64) -> (r: Option<(i64, i64)>)
    ensures
        r is Some <==> page_fits(page, page_size),
        r matches Some(w) ==> w.0 == clamp_page(page_size) && w.1 == (clamp_page(page) - 1) * clamp_page(
            page_size,
        ),
{
    let page_no: i64 = if page < 1 { 1 } else { page };
    let page_sz: i64 = if page_size < 1 { 1 } else { page_size };
    match (page_no - 1).checked_mul(page_sz) {
        Some(_) => Some(page_window(page, page_size)),
        None => None,
    }
}

/// The answer envelope of the API.
pub struct DefaultResponseObj<T> {
    pub code: usize,
    pub message: String,
    pub data: T,
}

impl<T> DefaultResponseObj<T> {
    /// A successful answer carrying `data`.
    pub fn ok(data: T) -> (r: Self)
        ensures
            r.code == 200,
            r.message@ == "OK"@,
            r.data == data,
    {
        DefaultResponseObj { code: 200, message: String::from_str("OK"), data }
    }
}

} // verus!

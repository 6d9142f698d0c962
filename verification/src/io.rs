use vstd::prelude::*;

use crate::index::{clone_node, node_matches, Node};
use crate::worker::{QueryState, QueryTask};

verus! {

/// Result rows per page of the polling endpoint.
pub const PER_PAGE: usize = 50;

/// The pagination block of a polled response.  `current_page` carries
/// the requested 1-indexed page number, 1 when none was named.
#[derive(Debug, Clone, Copy, PartialEq, Eq, Structural)]
pub struct Pagination {
    pub count: usize,
    pub current_page: usize,
    pub per_page: usize,
}

/// The optional 1-indexed page of a poll.
#[derive(Debug, Clone, Copy, PartialEq, Eq, Structural)]
pub struct Page {
    pub page: Option<usize>,
}

/// One polled snapshot of a task.
#[derive(Debug)]
pub struct PaginatedQueryResponse {
    pub status: QueryState,
    pub pagination: Pagination,
    pub results: Vec<Node>,
}

/// The half-open window of result indices a poll returns: the first
/// `PER_PAGE` rows when no page is named; for page `p`, the `p`-th
/// window of `PER_PAGE` rows, and nothing when the window would start
/// at or past the end of the list (so every named page holds at least
/// one row, and page numbers start at one).
pub open spec fn page_window(len: int, page: Option<usize>) -> Option<(int, int)> {
    match page {
        None => Some(
            (
                0,
                if len < PER_PAGE {
                    len
                } else {
                    PER_PAGE as int
                },
            ),
        ),
        Some(p) => if p >= 1 && (p - 1) * PER_PAGE < len {
            Some(
                (
                    (p - 1) * PER_PAGE,
                    if (p - 1) * PER_PAGE + PER_PAGE < len {
                        (p - 1) * PER_PAGE + PER_PAGE
                    } else {
                        len
                    },
                ),
            )
        } else {
            None
        },
    }
}

/// Compute the window of result indices a poll returns, or nothing for
/// an out-of-range page.
pub fn paginate(len: usize, page: Option<usize>) -> (r: Option<(usize, usize)>)
    ensures
        r matches Some(w) ==> Some((w.0 as int, w.1 as int)) == page_window(len as int, page)
            && w.0 <= w.1 <= len,
        r is None ==> page_window(len as int, page) is None,
{
    match page {
        None => {
            let hi = if len < PER_PAGE {
                len
            } else {
                PER_PAGE
            };
            Some((0, hi))
        },
        Some(p) => {
            if p < 1 {
                return None;
            }
            if p - 1 > len / PER_PAGE {
                // the window start exceeds the length
                proof {
                    assert((p - 1) * (PER_PAGE as int) >= len) by (nonlinear_arith)
                        requires
                            p - 1 > len as int / (PER_PAGE as int),
                            PER_PAGE == 50,
                            len >= 0,
                    ;
                }
                return None;
            }
            proof {
                assert((p - 1) * (PER_PAGE as int) <= len) by (nonlinear_arith)
                    requires
                        p - 1 <= len as int / (PER_PAGE as int),
                        PER_PAGE == 50,
                        len >= 0,
                ;
            }
            let start = (p - 1) * PER_PAGE;
            if start >= len {
                return None;
            }
            let hi = if len - start > PER_PAGE {
                start + PER_PAGE
            } else {
                len
            };
            Some((start, hi))
        },
    }
}

/// A page whose window begins at or past the count yields no window:
/// polling past the last page reports the page as absent.
pub proof fn lemma_page_out_of_range(len: usize, p: usize)
    requires
        (p - 1) * PER_PAGE >= len,
    ensures
        page_window(len as int, Some(p)) is None,
{
}

/// Build one polled snapshot of a task: its current state, the window
/// of its results the page names, and the pagination block.  Nothing
/// for an out-of-range page.
pub fn paginate_results(task: &QueryTask, page: Option<usize>) -> (r: Option<
    PaginatedQueryResponse,
>)
    ensures
        r is Some <==> page_window(task.results@.len() as int, page) is Some,
        r matches Some(resp) ==> (page_window(task.results@.len() as int, page) matches Some(w)
            && resp.status == task.state && resp.pagination == (Pagination {
            count: task.results@.len() as usize,
            current_page: match page {
                Some(p) => p,
                None => 1,
            },
            per_page: PER_PAGE,
        }) && resp.results@.len() == w.1 - w.0 && forall|i: int|
            0 <= i < resp.results@.len() ==> node_matches(
                #[trigger] resp.results@[i],
                task.results@[w.0 + i],
            )),
{
    let len = task.results.len();
    let (start, end) = match paginate(len, page) {
        Some(w) => w,
        None => {
            return None;
        },
    };
    let mut rows: Vec<Node> = Vec::new();
    let mut i: usize = start;
    while i < end
        invariant
            start <= i <= end <= task.results@.len(),
            rows@.len() == i - start,
            forall|k: int|
                0 <= k < rows@.len() ==> node_matches(
                    #[trigger] rows@[k],
                    task.results@[start + k],
                ),
        decreases end - i,
    {
        rows.push(clone_node(&task.results[i]));
        i = i + 1;
    }
    let current_page = match page {
        Some(p) => p,
        None => 1,
    };
    Some(
        PaginatedQueryResponse {
            status: task.state,
            pagination: Pagination { count: len, current_page, per_page: PER_PAGE },
            results: rows,
        },
    )
}

} // verus!

//! The pagination aggregator: the paging decisions of a cursor-driven query
//! loop, kept apart from the transport that performs each fetch. The caller
//! asks for the next request to issue, hands back each fetched page, and
//! reads off the bounded result.
use vstd::prelude::*;
use crate::json::JsonValue;

verus! {

/// What the next page fetch should ask for.
pub struct PageRequest {
    pub max_results: i64,
    pub cursor: Option<String>,
}

/// The fixed number of records one page may carry.
pub const PAGE_SIZE: i64 = 100;

/// State of one bounded aggregation run.
pub struct Paginator {
    pub limit: i64,
    pub records: Vec<JsonValue>,
    pub cursor: Option<String>,
    pub finished: bool,
    pub more_available: bool,
}

fn clone_cursor(c: &Option<String>) -> (r: Option<String>)
    ensures
        r == *c,
{
    match c {
        Some(s) => Some(s.clone()),
        None => None,
    }
}

impl Paginator {
    /// While unfinished, fewer records are collected than the cap asks for.
    pub open spec fn wf(self) -> bool {
        !self.finished ==> self.records@.len() < self.limit
    }

    /// Starts an aggregation capped at `limit` records. A cap of zero or
    /// less is finished at once, before any request is issued.
    pub fn new(limit: i64) -> (r: Paginator)
        ensures
            r.limit == limit,
            r.records@.len() == 0,
            r.cursor is None,
            r.more_available == false,
            r.finished == (limit <= 0),
            r.wf(),
    {
        Paginator {
            limit,
            records: Vec::new(),
            cursor: None,
            finished: limit <= 0,
            more_available: false,
        }
    }

    /// The request to issue next: `None` once the run is finished; otherwise
    /// at most a page worth, and no more than the cap still allows, resuming
    /// from the cursor of the page before.
    pub fn next_request(&self) -> (r: Option<PageRequest>)
        requires
            self.wf(),
        ensures
            (r is Some) == !self.finished,
            r matches Some(req) ==> {
                &&& req.max_results == if self.limit - self.records@.len() < PAGE_SIZE {
                    self.limit - self.records@.len()
                } else {
                    PAGE_SIZE as int
                }
                &&& req.cursor == self.cursor
            },
    {
        if self.finished {
            return None;
        }
        let len = self.records.len();
        let remaining = self.limit - (len as i64);
        let max_results = if remaining < PAGE_SIZE {
            remaining
        } else {
            PAGE_SIZE
        };
        Some(PageRequest { max_results, cursor: clone_cursor(&self.cursor) })
    }

    /// Takes in one fetched page. The records are appended; the cursor is
    /// replaced. A page with no cursor or no records is terminal. The run
    /// finishes on a terminal page or once the cap is reached, and more data
    /// is known to remain exactly when the cap was reached on a page that
    /// was not terminal. An unfinished run has grown strictly, so every
    /// driving loop ends.
    pub fn accept_page(&mut self, page: Vec<JsonValue>, next_cursor: Option<String>)
        requires
            old(self).wf(),
            !old(self).finished,
        ensures
            final(self).limit == old(self).limit,
            final(self).records@ == old(self).records@ + page@,
            final(self).cursor == next_cursor,
            ({
                let terminal = (next_cursor is None) || page@.len() == 0;
                let capped = old(self).records@.len() + page@.len() >= old(self).limit;
                final(self).finished == (terminal || capped) && final(self).more_available == (
                !terminal && capped)
            }),
            final(self).wf(),
            final(self).finished || final(self).records@.len() > old(self).records@.len(),
    {
        let got_any = page.len() > 0;
        let mut page = page;
        self.records.append(&mut page);
        let terminal = self.cursor_absent(&next_cursor) || !got_any;
        self.cursor = next_cursor;
        let capped = (self.records.len() as u64) >= (self.limit as u64);
        self.finished = terminal || capped;
        self.more_available = !terminal && capped;
    }

    fn cursor_absent(&self, c: &Option<String>) -> (r: bool)
        ensures
            r == (*c is None),
    {
        match c {
            Some(_) => false,
            None => true,
        }
    }

    /// Hands out what was collected and whether more data remains upstream.
    pub fn into_result(self) -> (r: (Vec<JsonValue>, bool))
        ensures
            r.0@ == self.records@,
            r.1 == self.more_available,
    {
        (self.records, self.more_available)
    }
}

} // verus!

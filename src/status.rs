use vstd::prelude::*;
use crate::article::Article;
use crate::sort::{sort_by_score, sorted_by_score};
use crate::pagination::clamped_page;
use crate::table::TableEngine;

verus! {

/// What the result area shows.
#[derive(Debug, PartialEq)]
pub enum TableStatus {
    /// Nothing was asked for yet.
    NotRequested,
    /// A search is under way.
    Requested,
    /// The last search failed with this message.
    RequestError(String),
    /// The last search succeeded; the table holds its articles.
    Available,
}

/// The request lifecycle. Each search gets a ticket; only the reply to the
/// latest one is taken, so a reply to a search that a newer one replaced is
/// dropped. The table it feeds is the caller's and is handed to `receive`.
#[derive(Debug)]
pub struct Session {
    status: TableStatus,
    latest: u64,
}

/// The ticket after `t`.
pub open spec fn next_ticket(t: u64) -> u64 {
    if t == u64::MAX {
        0
    } else {
        (t + 1) as u64
    }
}

impl Session {
    /// What the result area shows.
    pub closed spec fn state(&self) -> TableStatus {
        self.status
    }

    /// The ticket of the latest search.
    pub closed spec fn ticket(&self) -> u64 {
        self.latest
    }

    /// Nothing asked for yet.
    pub fn new() -> (r: Session)
        ensures
            r.state() == TableStatus::NotRequested,
            r.ticket() == 0,
    {
        Session { status: TableStatus::NotRequested, latest: 0 }
    }

    /// A search was submitted: the status becomes `Requested` and the
    /// returned ticket is the only one whose reply will be taken.
    pub fn submit(&mut self) -> (ticket: u64)
        ensures
            final(self).state() == TableStatus::Requested,
            ticket == next_ticket(old(self).ticket()),
            final(self).ticket() == ticket,
    {
        self.latest = if self.latest == u64::MAX {
            0
        } else {
            self.latest + 1
        };
        self.status = TableStatus::Requested;
        self.latest
    }

    /// The reply to the search with `ticket`. It is taken only while that
    /// search is the latest and still under way: articles become the
    /// content of `table`, highest score first, and the status `Available`;
    /// a failure message becomes the status `RequestError` and leaves the
    /// table as it was. Returns whether the reply was taken.
    pub fn receive(
        &mut self,
        table: &mut TableEngine,
        ticket: u64,
        outcome: Result<Vec<Article>, String>,
    ) -> (taken: bool)
        requires
            old(table).wf(),
        ensures
            final(table).wf(),
            taken == (ticket == old(self).ticket() && old(self).state() == TableStatus::Requested),
            final(self).ticket() == old(self).ticket(),
            !taken ==> final(self).state() == old(self).state() && *final(table) == *old(table),
            taken ==> match outcome {
                Ok(records) => final(self).state() == TableStatus::Available && sorted_by_score(
                    records@,
                    final(table).articles(),
                ) && final(table).filter_set() == old(table).filter_set()
                    && final(table).sort_key() is None
                    && final(table).rows_per_page() == old(table).rows_per_page()
                    && final(table).page() == clamped_page(
                    final(table).visible().len(),
                    old(table).rows_per_page(),
                    old(table).page(),
                ) && final(table).marked() == old(table).marked(),
                Err(msg) => final(self).state() == TableStatus::RequestError(msg) && *final(table)
                    == *old(table),
            },
    {
        let current = match self.status {
            TableStatus::Requested => true,
            _ => false,
        };
        if ticket != self.latest || !current {
            return false;
        }
        match outcome {
            Ok(records) => {
                let mut records = records;
                sort_by_score(&mut records);
                table.replace_records(records);
                self.status = TableStatus::Available;
            },
            Err(msg) => {
                self.status = TableStatus::RequestError(msg);
            },
        }
        true
    }

    /// What the result area shows.
    pub fn status(&self) -> (r: &TableStatus)
        ensures
            *r == self.state(),
    {
        &self.status
    }

    /// The ticket of the latest search.
    pub fn latest_ticket(&self) -> (r: u64)
        ensures
            r == self.ticket(),
    {
        self.latest
    }
}

} // verus!

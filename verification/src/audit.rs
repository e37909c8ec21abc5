//! The audit log: its records and the window of a page of them.
use vstd::prelude::*;

verus! {

/// Audit log entry stored in the database.
pub struct AuditLog {
    pub id: String,
    pub user_id: Option<String>,
    pub action: String,
    pub resource: Option<String>,
    pub details: Option<String>,
    pub ip_address: Option<String>,
    pub created_at: String,
}

/// Query parameters for filtering audit logs.
pub struct AuditLogQuery {
    pub user_id: Option<String>,
    pub action: Option<String>,
    pub page: Option<u32>,
    pub per_page: Option<u32>,
    pub since: Option<String>,
    pub until: Option<String>,
}

/// The page asked for: 1 by default, and at least 1.
pub open spec fn page_of(q: AuditLogQuery) -> u32 {
    let p = match q.page {
        Some(p) => p,
        None => 1,
    };
    if p < 1 {
        1
    } else {
        p
    }
}

/// The page size asked for: 50 by default, at most 200.
pub open spec fn page_size_of(q: AuditLogQuery) -> u32 {
    let n = match q.per_page {
        Some(n) => n,
        None => 50,
    };
    if n > 200 {
        200
    } else {
        n
    }
}

/// Which filter selects the records: by user and action, by one of them, or none.
pub enum AuditFilter {
    UserAndAction(String, String),
    User(String),
    Action(String),
    All,
}

/// The records a query reads: a filter, and a window of `limit` records after `offset`,
/// newest first.
pub struct AuditWindow {
    pub filter: AuditFilter,
    pub limit: i64,
    pub offset: i64,
}

impl AuditLogQuery {
    /// Whether the window of this query can be computed in 32 bits, as the
    /// server computes it: `(page - 1) * page size` must not overflow.
    pub open spec fn window_fits(self) -> bool {
        (page_of(self) - 1) * page_size_of(self) <= u32::MAX
    }

    /// The window of records of this query.
    pub fn window(&self) -> (w: AuditWindow)
        requires
            self.window_fits(),
        ensures
            w.limit == page_size_of(*self),
            w.offset == (page_of(*self) - 1) * page_size_of(*self),
            0 <= w.limit <= 200,
            match (self.user_id, self.action) {
                (Some(u), Some(a)) => w.filter matches AuditFilter::UserAndAction(wu, wa) && wu
                    == u && wa == a,
                (Some(u), None) => w.filter matches AuditFilter::User(wu) && wu == u,
                (None, Some(a)) => w.filter matches AuditFilter::Action(wa) && wa == a,
                (None, None) => w.filter is All,
            },
    {
        let page = match self.page {
            Some(p) => p,
            None => 1,
        };
        let page = if page < 1 {
            1
        } else {
            page
        };
        let per_page = match self.per_page {
            Some(n) => n,
            None => 50,
        };
        let per_page = if per_page > 200 {
            200
        } else {
            per_page
        };
        let offset = ((page - 1) * per_page) as i64;
        let limit = per_page as i64;
        let filter = match (&self.user_id, &self.action) {
            (Some(u), Some(a)) => AuditFilter::UserAndAction(u.clone(), a.clone()),
            (Some(u), None) => AuditFilter::User(u.clone()),
            (None, Some(a)) => AuditFilter::Action(a.clone()),
            (None, None) => AuditFilter::All,
        };
        AuditWindow { filter, limit, offset }
    }

    /// The page and page size echoed in the answer: as given, with the defaults 1
    /// and 50.
    pub fn shown_page(&self) -> (r: (u32, u32))
        ensures
            r.0 == (match self.page {
                Some(p) => p,
                None => 1,
            }),
            r.1 == (match self.per_page {
                Some(n) => n,
                None => 50,
            }),
    {
        let page = match self.page {
            Some(p) => p,
            None => 1,
        };
        let per_page = match self.per_page {
            Some(n) => n,
            None => 50,
        };
        (page, per_page)
    }
}

/// Consecutive pages of one query read adjacent windows that do not overlap.
pub proof fn lemma_pages_adjacent(size: u32, page: u32)
    requires
        1 <= page,
        size <= 200,
    ensures
        (page - 1) * size + size == page * size,
{
    assert((page - 1) * size + size == page * size) by (nonlinear_arith);
}

} // verus!

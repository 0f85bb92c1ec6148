use vstd::prelude::*;

verus! {

/// The gas price of a transaction request that names none.
pub fn default_gas_price() -> (r: u64)
    ensures
        r == 5,
{
    5
}

/// The gas limit of a transaction request that names none.
pub fn default_gas_limit() -> (r: u64)
    ensures
        r == 21000,
{
    21000
}

/// The state shared by the HTTP handlers: the chain `B` they serve.
#[derive(Debug)]
pub struct AppState<B> {
    pub blockchain_state: B,
}

/// The reply of the HTTP interface: data on success, a message on failure.
#[derive(Debug)]
pub struct ApiResponse<T> {
    pub success: bool,
    pub data: Option<T>,
    pub error: Option<String>,
}

impl<T> ApiResponse<T> {
    /// A successful reply carrying `data`.
    pub fn success(data: T) -> (r: Self)
        ensures
            r.success,
            r.data == Some(data),
            r.error is None,
    {
        ApiResponse { success: true, data: Some(data), error: None }
    }

    /// A failed reply carrying the message `error`.
    pub fn error(error: String) -> (r: Self)
        ensures
            !r.success,
            r.data is None,
            r.error == Some(error),
    {
        ApiResponse { success: false, data: None, error: Some(error) }
    }
}

/// The paging parameters of a listing.
#[derive(Debug, Clone, Copy)]
pub struct ListBlocksQuery {
    pub start: Option<u64>,
    pub limit: Option<u64>,
}

/// The number of items a listing returns at most: the limit asked (10 if none), capped at 100.
pub open spec fn page_limit(q: ListBlocksQuery) -> u64 {
    let l = match q.limit {
        Some(l) => l,
        None => 10u64,
    };
    if l < 100 {
        l
    } else {
        100
    }
}

/// The block heights a block listing returns, newest first: from the start height asked (the
/// latest if none, and at most the latest) down, as many as the page limit allows.
pub fn block_page_heights(chain_len: u64, q: ListBlocksQuery) -> (r: Vec<u64>)
    requires
        chain_len >= 1,
    ensures
        ({
            let latest = (chain_len - 1) as u64;
            let start = match q.start {
                Some(s) => if s < latest {
                    s
                } else {
                    latest
                },
                None => latest,
            };
            let count = if (start + 1) < page_limit(q) {
                start + 1
            } else {
                page_limit(q) as int
            };
            &&& r@.len() == count
            &&& forall|k: int| 0 <= k < r@.len() ==> #[trigger] r@[k] == start - k
        }),
{
    let latest = chain_len - 1;
    let start = match q.start {
        Some(s) => if s < latest {
            s
        } else {
            latest
        },
        None => latest,
    };
    let limit = match q.limit {
        Some(l) => l,
        None => 10,
    };
    let limit = if limit < 100 {
        limit
    } else {
        100
    };
    let count: u64 = if start < limit {
        start + 1
    } else {
        limit
    };
    let mut out: Vec<u64> = Vec::new();
    let mut k: u64 = 0;
    while k < count
        invariant
            k <= count,
            count <= start + 1,
            out@.len() == k,
            forall|m: int| 0 <= m < out@.len() ==> #[trigger] out@[m] == start - m,
        decreases count - k,
    {
        out.push(start - k);
        k = k + 1;
    }
    out
}

/// The window of a sorted listing: skip `start` (0 if none), then at most the page limit.
pub fn page_window(len: u64, q: ListBlocksQuery) -> (r: (u64, u64))
    ensures
        r.0 == if (match q.start {
            Some(s) => s,
            None => 0u64,
        }) < len {
            match q.start {
                Some(s) => s,
                None => 0u64,
            }
        } else {
            len
        },
        r.1 == if r.0 + page_limit(q) < len {
            (r.0 + page_limit(q)) as u64
        } else {
            len
        },
{
    let start = match q.start {
        Some(s) => s,
        None => 0,
    };
    let from = if start < len {
        start
    } else {
        len
    };
    let limit = match q.limit {
        Some(l) => l,
        None => 10,
    };
    let limit = if limit < 100 {
        limit
    } else {
        100
    };
    let to = if limit < len - from {
        from + limit
    } else {
        len
    };
    (from, to)
}

/// The commands the live channel answers.
#[derive(Debug, Clone, Copy, PartialEq, Eq)]
pub enum LiveCommand {
    GetStatus,
    GetTransactions,
    Unknown,
}

/// Reads a command of the live channel: "get_status", "get_transactions", or anything else.
pub fn parse_live_command(text: &str) -> (r: LiveCommand)
    ensures
        text@ == "get_status"@ ==> r == LiveCommand::GetStatus,
        text@ == "get_transactions"@ ==> r == LiveCommand::GetTransactions,
        text@ != "get_status"@ && text@ != "get_transactions"@ ==> r == LiveCommand::Unknown,
{
    proof {
        reveal_strlit("get_status");
        reveal_strlit("get_transactions");
        assert("get_status"@.len() != "get_transactions"@.len());
    }
    let t = text.to_owned();
    if t == String::from_str("get_status") {
        LiveCommand::GetStatus
    } else if t == String::from_str("get_transactions") {
        LiveCommand::GetTransactions
    } else {
        LiveCommand::Unknown
    }
}

/// How many transactions the live channel lists.
pub const LIVE_LISTING_LIMIT: usize = 10;

/// Whether transaction `i` comes before transaction `j` when listing the newest first: it has
/// the later timestamp, or the same one and an earlier position (the sort keeps ties in order).
pub open spec fn listed_before(ts: Seq<u64>, i: int, j: int) -> bool {
    ts[i] > ts[j] || (ts[i] == ts[j] && i < j)
}

/// Whether `r` lists positions of `ts` newest first, as a stable sort by descending timestamp
/// cut to `limit` entries gives them.
pub open spec fn newest_listing(ts: Seq<u64>, limit: nat, r: Seq<usize>) -> bool {
    &&& r.len() == if ts.len() < limit { ts.len() } else { limit }
    &&& forall|a: int| 0 <= a < r.len() ==> (#[trigger] r[a]) < ts.len()
    &&& forall|a: int, b: int| 0 <= a < b < r.len() ==> listed_before(ts, #[trigger] r[a] as int, #[trigger] r[b] as int)
    &&& forall|a: int, k: int|
        0 <= a < r.len() && 0 <= k < ts.len() && !r.contains(k as usize) ==> #[trigger] listed_before(ts, r[a] as int, k)
}

/// Fewer positions than `n` leave some position below `n` out.
proof fn lemma_some_left(r: Seq<usize>, n: usize)
    requires
        r.len() < n,
    ensures
        exists|j: usize| j < n && !r.contains(j),
{
    let s = r.map_values(|x: usize| x as int);
    if forall|j: usize| j < n ==> #[trigger] r.contains(j) {
        assert(vstd::set_lib::set_int_range(0, n as int).subset_of(s.to_set())) by {
            assert forall|j: int| #[trigger] vstd::set_lib::set_int_range(0, n as int).contains(j) implies s.to_set().contains(j) by {
                assert(r.contains(j as usize));
                let a = choose|a: int| 0 <= a < r.len() && r[a] == j as usize;
                assert(s[a] == j);
            }
        }
        vstd::set_lib::lemma_int_range(0, n as int);
        s.lemma_cardinality_of_set();
        vstd::seq_lib::seq_to_set_is_finite(s);
        vstd::set_lib::lemma_len_subset(vstd::set_lib::set_int_range(0, n as int), s.to_set());
    }
}

/// The positions of the newest transactions, newest first, at most `limit` of them; ties keep
/// their order. `timestamps` holds the timestamp of each transaction, the pending ones first,
/// then those of the chain, block by block.
pub fn newest_first(timestamps: &[u64], limit: usize) -> (r: Vec<usize>)
    ensures
        newest_listing(timestamps@, limit as nat, r@),
{
    let ghost ts = timestamps@;
    let n = timestamps.len();
    let mut taken: Vec<bool> = Vec::new();
    let mut z: usize = 0;
    while z < n
        invariant
            z <= n,
            n == ts.len(),
            taken@.len() == z,
            forall|k: int| 0 <= k < z ==> !(#[trigger] taken@[k]),
        decreases n - z,
    {
        taken.push(false);
        z = z + 1;
    }
    let mut r: Vec<usize> = Vec::new();
    while r.len() < limit && r.len() < n
        invariant
            n == ts.len(),
            ts == timestamps@,
            taken@.len() == n,
            r@.len() <= limit && r@.len() <= n,
            forall|a: int| 0 <= a < r@.len() ==> (#[trigger] r@[a]) < n,
            forall|k: int| 0 <= k < n ==> (#[trigger] taken@[k] <==> r@.contains(k as usize)),
            forall|a: int, b: int| 0 <= a < b < r@.len() ==> listed_before(ts, #[trigger] r@[a] as int, #[trigger] r@[b] as int),
            forall|a: int, k: int|
                0 <= a < r@.len() && 0 <= k < n && !r@.contains(k as usize) ==> #[trigger] listed_before(ts, r@[a] as int, k),
        decreases n - r@.len(),
    {
        proof {
            lemma_some_left(r@, n);
            let j = choose|j: usize| j < n && !r@.contains(j);
            assert(!taken@[j as int]);
        }
        let mut best: usize = n;
        let mut k: usize = 0;
        while k < n
            invariant
                n == ts.len(),
                ts == timestamps@,
                taken@.len() == n,
                k <= n,
                best == n || (best < k && !taken@[best as int]),
                forall|j: int| 0 <= j < k && !(#[trigger] taken@[j]) ==> best < n && (j == best || listed_before(ts, best as int, j)),
            decreases n - k,
        {
            if !taken[k] {
                if best == n || timestamps[k] > timestamps[best] {
                    best = k;
                }
            }
            k = k + 1;
        }
        proof {
            if best == n {
                let j = choose|j: int| 0 <= j < n && !(#[trigger] taken@[j]);
                assert(!taken@[j]);
            }
        }
        let ghost old_r = r@;
        r.push(best);
        taken.set(best, true);
        proof {
            assert forall|j: int| 0 <= j < n implies (#[trigger] taken@[j] <==> r@.contains(j as usize)) by {
                if j == best {
                    assert(r@[old_r.len() as int] == best);
                } else {
                    if r@.contains(j as usize) {
                        let a = choose|a: int| 0 <= a < r@.len() && r@[a] == j as usize;
                        assert(a < old_r.len());
                        assert(old_r[a] == j as usize);
                    }
                    if old_r.contains(j as usize) {
                        let a = choose|a: int| 0 <= a < old_r.len() && old_r[a] == j as usize;
                        assert(r@[a] == j as usize);
                    }
                }
            }
            assert forall|a: int, b: int| 0 <= a < b < r@.len() implies listed_before(ts, #[trigger] r@[a] as int, #[trigger] r@[b] as int) by {
                if b == old_r.len() {
                    assert(r@[a] == old_r[a]);
                    assert(!old_r.contains(best));
                } else {
                    assert(r@[a] == old_r[a] && r@[b] == old_r[b]);
                }
            }
            assert forall|a: int, j: int|
                0 <= a < r@.len() && 0 <= j < n && !r@.contains(j as usize) implies #[trigger] listed_before(ts, r@[a] as int, j) by {
                assert(!taken@[j]);
                assert(j != best);
                if a < old_r.len() {
                    assert(r@[a] == old_r[a]);
                    assert(!old_r.contains(j as usize)) by {
                        if old_r.contains(j as usize) {
                            let c = choose|c: int| 0 <= c < old_r.len() && old_r[c] == j as usize;
                            assert(r@[c] == j as usize);
                        }
                    }
                } else {
                    assert(r@[a] == best);
                }
            }
        }
    }
    r
}

} // verus!

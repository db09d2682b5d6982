use vstd::prelude::*;
use crate::text::to_chars;

verus! {

/// Position of an event on chain: its transaction digest and its sequence
/// number within the transaction.
#[derive(Debug, Clone)]
pub struct EventId {
    pub tx_digest: String,
    pub event_seq: String,
}

/// Number of `':'` in a string.
pub open spec fn colon_count(s: Seq<char>) -> nat
    decreases s.len(),
{
    if s.len() == 0 {
        0
    } else {
        colon_count(s.drop_last()) + if s.last() == ':' { 1nat } else { 0nat }
    }
}

/// The parts of a cursor with exactly one colon: what stands before it and
/// what follows it.
pub open spec fn cursor_parts(c: Seq<char>) -> Option<(Seq<char>, Seq<char>)> {
    if colon_count(c) == 1 {
        let p = choose|p: int| 0 <= p < c.len() && c[p] == ':';
        Some((c.take(p), c.skip(p + 1)))
    } else {
        None
    }
}

proof fn lemma_colon_count_take(s: Seq<char>, k: int)
    requires
        0 <= k < s.len(),
    ensures
        colon_count(s.take(k + 1)) == colon_count(s.take(k)) + if s[k] == ':' { 1nat } else { 0nat },
{
    assert(s.take(k + 1).drop_last() =~= s.take(k));
}

proof fn lemma_no_colon(s: Seq<char>)
    requires
        colon_count(s) == 0,
    ensures
        forall|i: int| 0 <= i < s.len() ==> s[i] != ':',
    decreases s.len(),
{
    if s.len() > 0 {
        lemma_no_colon(s.drop_last());
        assert forall|i: int| 0 <= i < s.len() implies s[i] != ':' by {
            if i < s.len() - 1 {
                assert(s.drop_last()[i] == s[i]);
            }
        }
    }
}

proof fn lemma_colon_count_concat(a: Seq<char>, b: Seq<char>)
    ensures
        colon_count(a + b) == colon_count(a) + colon_count(b),
    decreases b.len(),
{
    if b.len() == 0 {
        assert(a + b =~= a);
    } else {
        assert((a + b).drop_last() =~= a + b.drop_last());
        lemma_colon_count_concat(a, b.drop_last());
    }
}

proof fn lemma_colon_count_one()
    ensures
        colon_count(seq![':']) == 1,
{
    let s = seq![':'];
    assert(s.drop_last() =~= Seq::<char>::empty());
    assert(colon_count(Seq::<char>::empty()) == 0);
    assert(s.last() == ':');
}

impl EventId {
    /// The cursor text: digest and sequence joined by a colon.
    pub fn to_cursor(&self) -> (r: String)
        ensures
            r@ == self.tx_digest@ + seq![':'] + self.event_seq@,
    {
        proof {
            reveal_strlit(":");
        }
        let s = self.tx_digest.clone().concat(":");
        s.concat(self.event_seq.as_str())
    }

    /// Reads a cursor back: it must hold exactly one colon.
    pub fn from_cursor(cursor: &str) -> (r: Option<EventId>)
        ensures
            match cursor_parts(cursor@) {
                Some((a, b)) => r.is_some() && r.unwrap().tx_digest@ == a && r.unwrap().event_seq@ == b,
                None => r.is_none(),
            },
    {
        let cs = to_chars(cursor);
        let n = cs.len();
        let mut count: usize = 0;
        let mut pos: usize = 0;
        let mut k: usize = 0;
        while k < n
            invariant
                cs@ == cursor@,
                n == cursor@.len(),
                k <= n,
                count as int == colon_count(cursor@.take(k as int)),
                count <= k,
                count >= 1 ==> pos < k && cursor@[pos as int] == ':' && colon_count(cursor@.take(pos as int)) == 0,
            decreases n - k,
        {
            proof {
                lemma_colon_count_take(cursor@, k as int);
            }
            if cs[k] == ':' {
                if count == 0 {
                    pos = k;
                }
                count = count + 1;
            }
            k = k + 1;
        }
        proof {
            assert(cursor@.take(n as int) =~= cursor@);
        }
        if count != 1 {
            return None;
        }
        let ghost c = cursor@;
        proof {
            let p = choose|p: int| 0 <= p < c.len() && c[p] == ':';
            assert(c =~= c.take(pos as int) + c.skip(pos as int));
            lemma_colon_count_concat(c.take(pos as int), c.skip(pos as int));
            assert(c.skip(pos as int) =~= seq![':'] + c.skip(pos + 1));
            lemma_colon_count_concat(seq![':'], c.skip(pos + 1));
            lemma_colon_count_one();
            lemma_no_colon(c.take(pos as int));
            lemma_no_colon(c.skip(pos + 1));
            if p < pos {
                assert(c.take(pos as int)[p] == c[p]);
            } else if p > pos {
                assert(c.skip(pos + 1)[p - pos - 1] == c[p]);
            }
        }
        let a = cursor.substring_char(0, pos);
        let b = cursor.substring_char(pos + 1, n);
        proof {
            assert(a@ =~= c.take(pos as int));
            assert(b@ =~= c.skip(pos + 1));
        }
        Some(EventId { tx_digest: String::from_str(a), event_seq: String::from_str(b) })
    }
}

/// A digest and a sequence number without colons come back unchanged from
/// their cursor.
pub proof fn lemma_cursor_round_trip(tx_digest: Seq<char>, event_seq: Seq<char>)
    requires
        colon_count(tx_digest) == 0,
        colon_count(event_seq) == 0,
    ensures
        cursor_parts(tx_digest + seq![':'] + event_seq) == Some((tx_digest, event_seq)),
{
    let c = tx_digest + seq![':'] + event_seq;
    let pos = tx_digest.len() as int;
    lemma_colon_count_concat(tx_digest, seq![':']);
    lemma_colon_count_concat(tx_digest + seq![':'], event_seq);
    lemma_colon_count_one();
    assert(c[pos] == ':');
    let p = choose|p: int| 0 <= p < c.len() && c[p] == ':';
    lemma_no_colon(tx_digest);
    lemma_no_colon(event_seq);
    if p < pos {
        assert(c[p] == tx_digest[p]);
    } else if p > pos {
        assert(c[p] == event_seq[p - pos - 1]);
    }
    assert(c.take(pos) =~= tx_digest);
    assert(c.skip(pos + 1) =~= event_seq);
}

/// A query for the events of one handle, a page at a time.
#[derive(Debug, Clone)]
pub struct GetEventsRequest {
    pub handle: String,
    pub limit: i64,
    pub offset: i64,
}

/// Page size used when a query names none.
pub fn default_limit() -> (r: i64)
    ensures
        r == 50,
{
    50
}

/// Totals of a wallet's activity.
#[derive(Debug, Clone)]
pub struct WalletStats {
    pub handle: String,
    pub total_deposits: i64,
    pub total_withdrawals: i64,
    pub total_transfers_sent: i64,
    pub total_transfers_received: i64,
}

/// The event store; its queries run in the host.
pub struct Database;

} // verus!

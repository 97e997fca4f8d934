//! The leaderboard: the five best distinct scores, highest first.
use crate::app::{AppModel, LexivoApp};
use vstd::prelude::*;

verus! {

/// The number of places on the leaderboard.
pub const LEADERBOARD_SIZE: usize = 5;

/// Whether `s` is strictly decreasing.
pub open spec fn strictly_descending(s: Seq<u32>) -> bool {
    forall|i: int, j: int| 0 <= i < j < s.len() ==> #[trigger] s[i] > #[trigger] s[j]
}

/// Whether `board` holds the best distinct scores of `pool`, highest first:
/// it is strictly decreasing, has at most five places, holds only scores of
/// the pool, and every score of the pool that it leaves out is below all of
/// its five places.
pub open spec fn top_scores(board: Seq<u32>, pool: Seq<u32>) -> bool {
    &&& strictly_descending(board)
    &&& board.len() <= LEADERBOARD_SIZE
    &&& forall|k: int| 0 <= k < board.len() ==> pool.contains(#[trigger] board[k])
    &&& forall|x: u32|
        #[trigger] pool.contains(x) ==> board.contains(x) || (board.len() == LEADERBOARD_SIZE
            && x < board[LEADERBOARD_SIZE - 1])
}

/// The leaderboard after `score` is recorded on `board`.
pub open spec fn leaderboard_after(board: Seq<u32>, score: u32) -> Seq<u32> {
    choose|b: Seq<u32>| top_scores(b, board.push(score))
}

/// Where two leaderboards of one pool agree before place `k`, the first has
/// no higher score than the second at place `k`.
proof fn lemma_place_not_higher(a: Seq<u32>, b: Seq<u32>, pool: Seq<u32>, k: int)
    requires
        top_scores(a, pool),
        top_scores(b, pool),
        0 <= k < a.len(),
        k < b.len(),
        forall|j: int| 0 <= j < k ==> a[j] == b[j],
    ensures
        a[k] <= b[k],
{
    if a[k] > b[k] {
        let x = a[k];
        assert(pool.contains(x));
        if b.contains(x) {
            let j = choose|j: int| 0 <= j < b.len() && b[j] == x;
            if j < k {
                assert(a[j] == b[j]);
                assert(a[j] > a[k]);
            } else if j > k {
                assert(b[k] > b[j]);
            }
        } else {
            assert(b.len() == LEADERBOARD_SIZE && x < b[LEADERBOARD_SIZE - 1]);
            if k < LEADERBOARD_SIZE - 1 {
                assert(b[k] > b[LEADERBOARD_SIZE - 1]);
            }
        }
    }
}

/// Two leaderboards of one pool agree on their first `n` places.
proof fn lemma_places_agree(a: Seq<u32>, b: Seq<u32>, pool: Seq<u32>, n: int)
    requires
        top_scores(a, pool),
        top_scores(b, pool),
        0 <= n <= a.len(),
        n <= b.len(),
    ensures
        forall|j: int| 0 <= j < n ==> a[j] == b[j],
    decreases n,
{
    if n > 0 {
        lemma_places_agree(a, b, pool, n - 1);
        lemma_place_not_higher(a, b, pool, n - 1);
        lemma_place_not_higher(b, a, pool, n - 1);
    }
}

/// A leaderboard of a pool is no shorter than another one of the same pool.
proof fn lemma_not_shorter(a: Seq<u32>, b: Seq<u32>, pool: Seq<u32>)
    requires
        top_scores(a, pool),
        top_scores(b, pool),
    ensures
        a.len() >= b.len(),
{
    if a.len() < b.len() {
        let k = a.len() as int;
        lemma_places_agree(a, b, pool, k);
        let x = b[k];
        assert(pool.contains(x));
        if a.contains(x) {
            let j = choose|j: int| 0 <= j < a.len() && a[j] == x;
            assert(b[j] == a[j]);
            assert(b[j] > b[k]);
        }
    }
}

/// The leaderboard is determined by the scores alone: two leaderboards of
/// the same scores are equal.
pub proof fn lemma_top_scores_unique(a: Seq<u32>, b: Seq<u32>, pool: Seq<u32>)
    requires
        top_scores(a, pool),
        top_scores(b, pool),
    ensures
        a == b,
{
    lemma_not_shorter(a, b, pool);
    lemma_not_shorter(b, a, pool);
    lemma_places_agree(a, b, pool, a.len() as int);
    assert(a =~= b);
}

/// Any leaderboard of the scores is the one that `leaderboard_after` names.
proof fn lemma_leaderboard_after(board: Seq<u32>, score: u32, b: Seq<u32>)
    requires
        top_scores(b, board.push(score)),
    ensures
        leaderboard_after(board, score) == b,
{
    let c = leaderboard_after(board, score);
    assert(top_scores(c, board.push(score)));
    lemma_top_scores_unique(c, b, board.push(score));
}

/// Recording a score that is already on a leaderboard leaves it unchanged.
pub proof fn lemma_record_known_score(board: Seq<u32>, score: u32)
    requires
        strictly_descending(board),
        board.len() <= LEADERBOARD_SIZE,
        board.contains(score),
    ensures
        leaderboard_after(board, score) == board,
{
    let pool = board.push(score);
    assert forall|k: int| 0 <= k < board.len() implies pool.contains(#[trigger] board[k]) by {
        assert(pool[k] == board[k]);
    }
    assert forall|x: u32| #[trigger] pool.contains(x) implies board.contains(x) || (board.len()
        == LEADERBOARD_SIZE && x < board[LEADERBOARD_SIZE - 1]) by {
        let j = choose|j: int| 0 <= j < pool.len() && pool[j] == x;
        if j < board.len() {
            assert(board[j] == x);
        }
    }
    lemma_leaderboard_after(board, score, board);
}

/// In a strictly decreasing sequence `c` that holds the first `k + 1`
/// places of a strictly decreasing `a`, the place of `a[k]` is at least `k`.
proof fn lemma_place_at_least(a: Seq<u32>, c: Seq<u32>, k: int, j: int)
    requires
        strictly_descending(a),
        strictly_descending(c),
        0 <= k < a.len(),
        forall|i: int| 0 <= i <= k ==> c.contains(#[trigger] a[i]),
        0 <= j < c.len(),
        c[j] == a[k],
    ensures
        j >= k,
    decreases k,
{
    if k > 0 {
        assert(c.contains(a[k - 1]));
        let j2 = choose|j2: int| 0 <= j2 < c.len() && c[j2] == a[k - 1];
        lemma_place_at_least(a, c, k - 1, j2);
        assert(a[k - 1] > a[k]);
        if j <= j2 {
            if j < j2 {
                assert(c[j] > c[j2]);
            }
        }
    }
}

/// The leaderboard always holds the best distinct scores ever recorded:
/// where `board` is the leaderboard of the scores `pool`, the leaderboard
/// `next` of `board` with `x` added is that of `pool` with `x` added.
pub proof fn lemma_record_extends(board: Seq<u32>, pool: Seq<u32>, x: u32, next: Seq<u32>)
    requires
        top_scores(board, pool),
        top_scores(next, board.push(x)),
    ensures
        top_scores(next, pool.push(x)),
{
    let local = board.push(x);
    let all = pool.push(x);
    assert forall|k: int| 0 <= k < next.len() implies all.contains(#[trigger] next[k]) by {
        assert(local.contains(next[k]));
        let j = choose|j: int| 0 <= j < local.len() && local[j] == next[k];
        if j < board.len() {
            assert(pool.contains(board[j]));
            let q = choose|q: int| 0 <= q < pool.len() && pool[q] == board[j];
            assert(all[q] == next[k]);
        } else {
            assert(all[pool.len() as int] == next[k]);
        }
    }
    if board.len() == LEADERBOARD_SIZE {
        let last = board[LEADERBOARD_SIZE - 1];
        assert(local[LEADERBOARD_SIZE - 1] == last);
        assert(local.contains(last));
        if forall|i: int| 0 <= i < board.len() ==> next.contains(#[trigger] board[i]) {
            let j = choose|j: int| 0 <= j < next.len() && next[j] == last;
            lemma_place_at_least(board, next, LEADERBOARD_SIZE - 1, j);
        } else {
            let i = choose|i: int| 0 <= i < board.len() && !next.contains(#[trigger] board[i]);
            assert(local[i] == board[i]);
            assert(local.contains(board[i]));
        }
        assert(next.len() == LEADERBOARD_SIZE);
        assert(next[LEADERBOARD_SIZE - 1] >= last) by {
            if next.contains(last) {
                let j = choose|j: int| 0 <= j < next.len() && next[j] == last;
                if j < LEADERBOARD_SIZE - 1 {
                    assert(next[j] > next[LEADERBOARD_SIZE - 1]);
                }
            }
        }
    }
    assert forall|y: u32| #[trigger] all.contains(y) implies next.contains(y) || (next.len()
        == LEADERBOARD_SIZE && y < next[LEADERBOARD_SIZE - 1]) by {
        let q = choose|q: int| 0 <= q < all.len() && all[q] == y;
        if q < pool.len() {
            assert(pool[q] == y);
            assert(pool.contains(y));
            if board.contains(y) {
                let j = choose|j: int| 0 <= j < board.len() && board[j] == y;
                assert(local[j] == y);
                assert(local.contains(y));
            }
        } else {
            assert(local[board.len() as int] == y);
            assert(local.contains(y));
        }
    }
}

/// Inserts `x` into a leaderboard, keeping it strictly decreasing and at
/// most five long.
fn insert_score(board: &mut Vec<u32>, x: u32)
    requires
        strictly_descending(old(board)@),
        old(board)@.len() <= LEADERBOARD_SIZE,
    ensures
        strictly_descending(final(board)@),
        final(board)@.len() <= LEADERBOARD_SIZE,
        forall|y: u32| #[trigger] final(board)@.contains(y) ==> old(board)@.contains(y) || y == x,
        final(board)@.contains(x) || (final(board)@.len() == LEADERBOARD_SIZE && x
            < final(board)@[LEADERBOARD_SIZE - 1]),
        forall|y: u32|
            #[trigger] old(board)@.contains(y) ==> final(board)@.contains(y) || (final(board)@.len()
                == LEADERBOARD_SIZE && y < final(board)@[LEADERBOARD_SIZE - 1]),
        old(board)@.len() == LEADERBOARD_SIZE ==> final(board)@.len() == LEADERBOARD_SIZE
            && final(board)@[LEADERBOARD_SIZE - 1] >= old(board)@[LEADERBOARD_SIZE - 1],
{
    let ghost b = board@;
    let mut p: usize = 0;
    while p < board.len() && board[p] > x
        invariant
            board@ == b,
            p <= board.len(),
            forall|k: int| 0 <= k < p ==> #[trigger] b[k] > x,
        decreases board.len() - p,
    {
        p += 1;
    }
    if p < board.len() && board[p] == x {
        assert(b.contains(x));
        return;
    }
    if p >= LEADERBOARD_SIZE {
        assert(b[LEADERBOARD_SIZE - 1] > x);
        return;
    }
    board.insert(p, x);
    let ghost c = board@;
    assert(c == b.insert(p as int, x));
    assert forall|i: int, j: int| 0 <= i < j < c.len() implies #[trigger] c[i] > #[trigger] c[j] by {
        if j < p {
        } else if j == p {
        } else if i < p {
            assert(c[j] == b[j - 1]);
        } else if i == p {
            assert(c[j] == b[j - 1]);
            assert(b[p as int] < x || b[p as int] == x || b[p as int] > x);
        } else {
            assert(c[i] == b[i - 1] && c[j] == b[j - 1]);
        }
    }
    assert(c[p as int] == x);
    assert forall|y: u32| #[trigger] b.contains(y) implies c.contains(y) by {
        let k = choose|k: int| 0 <= k < b.len() && b[k] == y;
        if k < p {
            assert(c[k] == y);
        } else {
            assert(c[k + 1] == y);
        }
    }
    assert forall|y: u32| #[trigger] c.contains(y) implies b.contains(y) || y == x by {
        let k = choose|k: int| 0 <= k < c.len() && c[k] == y;
        if k < p {
            assert(b[k] == y);
        } else if k > p {
            assert(b[k - 1] == y);
        }
    }
    if board.len() > LEADERBOARD_SIZE {
        let dropped = board.pop().unwrap();
        let ghost d = board@;
        assert(d =~= c.take(LEADERBOARD_SIZE as int));
        assert(dropped == c[LEADERBOARD_SIZE as int]);
        assert(dropped < d[LEADERBOARD_SIZE - 1]);
        assert forall|y: u32| #[trigger] c.contains(y) implies d.contains(y) || (d.len()
            == LEADERBOARD_SIZE && y < d[LEADERBOARD_SIZE - 1]) by {
            let k = choose|k: int| 0 <= k < c.len() && c[k] == y;
            if k < LEADERBOARD_SIZE {
                assert(d[k] == y);
            }
        }
        assert forall|y: u32| #[trigger] d.contains(y) implies c.contains(y) by {
            let k = choose|k: int| 0 <= k < d.len() && d[k] == y;
            assert(c[k] == y);
        }
        assert(x < d[LEADERBOARD_SIZE - 1] || d.contains(x)) by {
            if p < LEADERBOARD_SIZE {
                assert(d[p as int] == x);
            }
        }
        assert(b.len() == LEADERBOARD_SIZE);
        assert(d[LEADERBOARD_SIZE - 1] >= b[LEADERBOARD_SIZE - 1]) by {
            if p == LEADERBOARD_SIZE - 1 {
                assert(d[LEADERBOARD_SIZE - 1] == x);
            } else {
                assert(d[LEADERBOARD_SIZE - 1] == b[LEADERBOARD_SIZE - 2]);
            }
        }
    }
}

/// The leaderboard of the scores `pool`.
fn top_scores_of(pool: &Vec<u32>) -> (board: Vec<u32>)
    ensures
        top_scores(board@, pool@),
{
    let mut board: Vec<u32> = Vec::new();
    let mut i: usize = 0;
    while i < pool.len()
        invariant
            i <= pool.len(),
            strictly_descending(board@),
            board@.len() <= LEADERBOARD_SIZE,
            forall|k: int| 0 <= k < board@.len() ==> pool@.take(i as int).contains(#[trigger] board@[k]),
            forall|x: u32|
                #[trigger] pool@.take(i as int).contains(x) ==> board@.contains(x) || (board@.len()
                    == LEADERBOARD_SIZE && x < board@[LEADERBOARD_SIZE - 1]),
        decreases pool.len() - i,
    {
        let ghost before = board@;
        let ghost pre = pool@.take(i as int);
        let ghost post = pool@.take(i + 1);
        assert(post =~= pre.push(pool@[i as int]));
        insert_score(&mut board, pool[i]);
        assert forall|k: int| 0 <= k < board@.len() implies post.contains(#[trigger] board@[k]) by {
            let y = board@[k];
            assert(board@.contains(y));
            if before.contains(y) {
                let j = choose|j: int| 0 <= j < before.len() && before[j] == y;
                assert(pre.contains(before[j]));
                let q = choose|q: int| 0 <= q < pre.len() && pre[q] == y;
                assert(post[q] == y);
            } else {
                assert(post[i as int] == y);
            }
        }
        assert forall|x: u32| #[trigger] post.contains(x) implies board@.contains(x) || (board@.len()
            == LEADERBOARD_SIZE && x < board@[LEADERBOARD_SIZE - 1]) by {
            let q = choose|q: int| 0 <= q < post.len() && post[q] == x;
            if q < i {
                assert(pre[q] == x);
                assert(pre.contains(x));
                if before.contains(x) {
                } else {
                    assert(before.len() == LEADERBOARD_SIZE && x < before[LEADERBOARD_SIZE - 1]);
                }
            }
        }
        i += 1;
    }
    assert(pool@.take(pool@.len() as int) =~= pool@);
    board
}

/// The state after the current score is recorded on the leaderboard.
pub open spec fn record_spec(m: AppModel) -> AppModel {
    AppModel { leaderboard: leaderboard_after(m.leaderboard, m.score), ..m }
}

impl LexivoApp {
    /// Adds the current score to the leaderboard, which keeps the five best
    /// distinct scores, highest first.
    pub fn record_score(&mut self)
        ensures
            final(self)@ == record_spec(old(self)@),
            top_scores(final(self)@.leaderboard, old(self)@.leaderboard.push(old(self)@.score)),
    {
        let mut pool: Vec<u32> = Vec::new();
        let mut i: usize = 0;
        while i < self.leaderboard.len()
            invariant
                i <= self.leaderboard.len(),
                pool@ == self.leaderboard@.take(i as int),
            decreases self.leaderboard.len() - i,
        {
            pool.push(self.leaderboard[i]);
            assert(self.leaderboard@.take(i + 1) =~= self.leaderboard@.take(i as int).push(
                self.leaderboard@[i as int],
            ));
            i += 1;
        }
        assert(self.leaderboard@.take(i as int) =~= self.leaderboard@);
        pool.push(self.score);
        let board = top_scores_of(&pool);
        proof {
            lemma_leaderboard_after(self@.leaderboard, self.score, board@);
        }
        self.leaderboard = board;
    }
}

} // verus!

//! Revealing letters of the answer: each reveal costs points and locks one
//! letter that was not yet revealed, chosen by the game's generator.
use crate::answer::{
    clear_slot_spec, current_answer, index_valid, slot_spec, slots_consistent, slots_spec,
    unrevealed_before,
};
use crate::app::{with_message, AppModel, LexivoApp};
use crate::config::AppConfig;
use crate::scores::leaderboard_after;
use crate::text::{decimal_spec, push_char, push_decimal};
use vstd::prelude::*;

verus! {

broadcast use vstd::string::group_string_axioms;

/// The indices below `n` that `revealed` does not hold, in increasing order.
pub open spec fn unrevealed_upto(revealed: Seq<usize>, n: int) -> Seq<usize>
    decreases n,
{
    if n <= 0 {
        seq![]
    } else if revealed.contains((n - 1) as usize) {
        unrevealed_upto(revealed, n - 1)
    } else {
        unrevealed_upto(revealed, n - 1).push((n - 1) as usize)
    }
}

/// Whether `s` is strictly increasing.
pub open spec fn strictly_increasing(s: Seq<usize>) -> bool {
    forall|i: int, j: int| 0 <= i < j < s.len() ==> #[trigger] s[i] < #[trigger] s[j]
}

/// Whether `s` holds exactly the indices of `old` and `idx`, each once and
/// in increasing order.
pub open spec fn sorted_with(s: Seq<usize>, old: Seq<usize>, idx: usize) -> bool {
    &&& strictly_increasing(s)
    &&& forall|y: usize| #[trigger] s.contains(y) <==> (old.contains(y) || y == idx)
}

/// The revealed indices after `idx` is revealed: sorted, without repeats.
pub open spec fn revealed_after(old: Seq<usize>, idx: usize) -> Seq<usize> {
    choose|s: Seq<usize>| sorted_with(s, old, idx)
}

/// The number the generator state gives for picking a letter: the state
/// itself where it fits a `usize`, else the largest `usize`.
pub open spec fn pick_source(state: u64) -> usize {
    if state <= usize::MAX {
        state as usize
    } else {
        usize::MAX
    }
}

/// The next state of the game's linear congruential generator.
pub open spec fn lcg_next(state: u64) -> u64 {
    state.wrapping_mul(6364136223846793005).wrapping_add(1442695040888963407)
}

/// The message shown when the score cannot pay for a letter.
pub open spec fn need_points_message() -> Seq<char> {
    "Need "@ + decimal_spec(AppConfig::LETTER_REVEAL_COST_POINTS as nat)
        + " points to reveal a letter"@
}

/// The message that announces the letter revealed at `idx`.
pub open spec fn revealed_message(idx: usize, letter: char) -> Seq<char> {
    "Letter revealed: letter "@ + decimal_spec((idx + 1) as nat) + " is '"@ + seq![letter] + "' (-"@
        + decimal_spec(AppConfig::LETTER_REVEAL_COST_POINTS as nat) + " points)"@
}

/// The index that a reveal picks: the unrevealed index at the generator's
/// number modulo their count.
pub open spec fn picked_index(m: AppModel) -> usize {
    let free = unrevealed_upto(m.revealed_answer_indices, current_answer(m).len() as int);
    free[(pick_source(m.rng_state) % (free.len() as usize)) as int]
}

/// The state after the letter at `idx` is revealed and paid for: the typed
/// letter on its slot is removed, the slot is locked, the generator steps
/// and the cost is taken from the score.
pub open spec fn paid_reveal(m: AppModel, idx: usize) -> AppModel {
    let cleared = clear_slot_spec(m, idx as int).0;
    AppModel {
        rng_state: lcg_next(m.rng_state),
        revealed_answer_indices: revealed_after(m.revealed_answer_indices, idx),
        score: (m.score - AppConfig::LETTER_REVEAL_COST_POINTS) as u32,
        ..cleared
    }
}

/// The state when a reveal takes the score to zero: the game is over, the
/// streak is lost and the score is recorded.
pub open spec fn hint_game_over(m: AppModel) -> AppModel {
    with_message(
        AppModel {
            game_over: true,
            streak: 0,
            leaderboard: leaderboard_after(m.leaderboard, m.score),
            user_input: seq![],
            auto_focus: true,
            daily_challenge_active: false,
            ..m
        },
        "Game over! Score reached zero."@,
    )
}

/// The state after the player asks for a letter of the answer.
pub open spec fn reveal_spec(m: AppModel) -> AppModel {
    if m.game_over {
        m
    } else if m.puzzles.len() == 0 {
        with_message(m, "No puzzles loaded"@)
    } else if m.score < AppConfig::LETTER_REVEAL_COST_POINTS {
        with_message(m, need_points_message())
    } else if unrevealed_upto(m.revealed_answer_indices, current_answer(m).len() as int).len()
        == 0 {
        with_message(m, "All letters are already revealed for this answer."@)
    } else {
        reveal_picked(m, picked_index(m))
    }
}

/// Whether the game is on, a puzzle is loaded and the score pays for a
/// letter.
pub open spec fn reveal_affordable(m: AppModel) -> bool {
    &&& !m.game_over
    &&& m.puzzles.len() > 0
    &&& m.score >= AppConfig::LETTER_REVEAL_COST_POINTS
}

/// Whether a reveal goes ahead: the game is on, a puzzle is loaded, the
/// score pays for a letter and some letter of the answer is not revealed.
pub open spec fn reveal_goes_ahead(m: AppModel) -> bool {
    &&& reveal_affordable(m)
    &&& exists|free: usize|
        free < current_answer(m).len() && !#[trigger] m.revealed_answer_indices.contains(free)
}

/// What a reveal that goes ahead from `m` to `r` does at the index `idx`:
/// `idx` is a letter of the answer that was not revealed and is now locked
/// among the revealed indices, kept sorted without repeats; the cost of a
/// letter is paid; the slot shows the answer's letter and clearing it
/// removes nothing; the game is over exactly when the score reached zero,
/// and otherwise the typed text has lost just the letter that stood on that
/// slot, if one did.
pub open spec fn reveal_effects(m: AppModel, r: AppModel, idx: usize) -> bool {
    &&& idx < current_answer(m).len()
    &&& !m.revealed_answer_indices.contains(idx)
    &&& sorted_with(r.revealed_answer_indices, m.revealed_answer_indices, idx)
    &&& r.score == m.score - AppConfig::LETTER_REVEAL_COST_POINTS
    &&& r.puzzles == m.puzzles && r.current_index == m.current_index
    &&& slots_spec(r)[idx as int] == Some(current_answer(m)[idx as int])
    &&& !clear_slot_spec(r, idx as int).1
    &&& r.game_over == (r.score == 0)
    &&& r.score > 0 ==> r.user_input == clear_slot_spec(m, idx as int).0.user_input
    &&& r.score == 0 ==> r.user_input.len() == 0
}

/// The state after the letter at `idx` is revealed: the game ends where
/// the cost takes the score to zero, and otherwise the letter is announced.
pub open spec fn reveal_picked(m: AppModel, idx: usize) -> AppModel {
    let paid = paid_reveal(m, idx);
    if paid.score == 0 {
        hint_game_over(paid)
    } else {
        with_message(paid, revealed_message(idx, current_answer(m)[idx as int]))
    }
}

/// The indices listed are below `n`, and not in `revealed`.
proof fn lemma_unrevealed_upto_members(revealed: Seq<usize>, n: int)
    requires
        n <= usize::MAX,
    ensures
        n >= 0 ==> unrevealed_upto(revealed, n).len() <= n,
        forall|k: int|
            0 <= k < unrevealed_upto(revealed, n).len() ==> #[trigger] unrevealed_upto(
                revealed,
                n,
            )[k] < n && !revealed.contains(unrevealed_upto(revealed, n)[k]),
    decreases n,
{
    if n > 0 {
        lemma_unrevealed_upto_members(revealed, n - 1);
        let r = unrevealed_upto(revealed, n - 1);
        if !revealed.contains((n - 1) as usize) {
            let s = r.push((n - 1) as usize);
            assert forall|k: int| 0 <= k < s.len() implies #[trigger] s[k] < n && !revealed.contains(
                s[k],
            ) by {
                if k < r.len() {
                    assert(s[k] == r[k]);
                }
            }
        }
    }
}

/// Two strictly increasing sequences with the same elements are equal.
proof fn lemma_increasing_unique(a: Seq<usize>, b: Seq<usize>)
    requires
        strictly_increasing(a),
        strictly_increasing(b),
        forall|y: usize| #[trigger] a.contains(y) <==> b.contains(y),
    ensures
        a == b,
{
    assert forall|k: int| 0 <= k < a.len() && k < b.len() implies a[k] == b[k] by {
        lemma_increasing_prefix(a, b, k + 1);
    }
    if a.len() < b.len() {
        let k = a.len() as int;
        lemma_increasing_prefix(a, b, k);
        assert(b.contains(b[k]));
        assert(a.contains(b[k]));
        let j = choose|j: int| 0 <= j < a.len() && a[j] == b[k];
        assert(b[j] < b[k]);
    } else if b.len() < a.len() {
        let k = b.len() as int;
        lemma_increasing_prefix(a, b, k);
        assert(a.contains(a[k]));
        let j = choose|j: int| 0 <= j < b.len() && b[j] == a[k];
        assert(a[j] < a[k]);
    }
    assert(a =~= b);
}

/// Two strictly increasing sequences with the same elements agree on their
/// first `n` places.
proof fn lemma_increasing_prefix(a: Seq<usize>, b: Seq<usize>, n: int)
    requires
        strictly_increasing(a),
        strictly_increasing(b),
        forall|y: usize| #[trigger] a.contains(y) <==> b.contains(y),
        0 <= n <= a.len(),
        n <= b.len(),
    ensures
        forall|j: int| 0 <= j < n ==> a[j] == b[j],
    decreases n,
{
    if n > 0 {
        let k = n - 1;
        lemma_increasing_prefix(a, b, k);
        assert(a.contains(a[k]));
        let j = choose|j: int| 0 <= j < b.len() && b[j] == a[k];
        if j < k {
            assert(a[j] < a[k]);
        }
        assert(b[k] <= a[k]);
        assert(b.contains(b[k]));
        assert(a.contains(b[k]));
        let i = choose|i: int| 0 <= i < a.len() && a[i] == b[k];
        if i < k {
            assert(b[i] < b[k]);
        }
        assert(a[k] <= b[k]);
    }
}

/// Any sorted list of `old` and `idx` is the one that `revealed_after` names.
proof fn lemma_revealed_after(old: Seq<usize>, idx: usize, s: Seq<usize>)
    requires
        sorted_with(s, old, idx),
    ensures
        revealed_after(old, idx) == s,
{
    let c = revealed_after(old, idx);
    assert(sorted_with(c, old, idx));
    lemma_increasing_unique(c, s);
}

/// The indices below `n` that `old` holds or that equal `idx`, in
/// increasing order.
pub open spec fn marked_upto(old: Seq<usize>, idx: usize, n: int) -> Seq<usize>
    decreases n,
{
    if n <= 0 {
        seq![]
    } else if old.contains((n - 1) as usize) || (n - 1) as usize == idx {
        marked_upto(old, idx, n - 1).push((n - 1) as usize)
    } else {
        marked_upto(old, idx, n - 1)
    }
}

/// The indices below `n` that `old` holds or that equal `idx` are listed
/// once each, in increasing order.
proof fn lemma_marked_upto(old: Seq<usize>, idx: usize, n: int)
    requires
        0 <= n <= usize::MAX + 1,
    ensures
        strictly_increasing(marked_upto(old, idx, n)),
        forall|k: int|
            0 <= k < marked_upto(old, idx, n).len() ==> #[trigger] marked_upto(old, idx, n)[k] < n,
        forall|y: usize|
            #[trigger] marked_upto(old, idx, n).contains(y) <==> (y < n && (old.contains(y) || y
                == idx)),
    decreases n,
{
    if n > 0 {
        lemma_marked_upto(old, idx, n - 1);
        let r = marked_upto(old, idx, n - 1);
        let top = (n - 1) as usize;
        if old.contains(top) || top == idx {
            let t = r.push(top);
            assert forall|k: int| 0 <= k < t.len() implies #[trigger] t[k] < n by {
                if k < r.len() {
                    assert(t[k] == r[k]);
                }
            }
            assert forall|i: int, j: int| 0 <= i < j < t.len() implies #[trigger] t[i] < #[trigger] t[j] by {
                assert(t[i] == r[i]);
                if j < r.len() {
                    assert(t[j] == r[j]);
                } else {
                    assert(r[i] < n - 1);
                }
            }
            assert forall|y: usize| #[trigger] t.contains(y) <==> (y < n && (old.contains(y) || y == idx)) by {
                if t.contains(y) {
                    let k = choose|k: int| 0 <= k < t.len() && t[k] == y;
                    if k < r.len() {
                        assert(r[k] == y);
                        assert(r.contains(y));
                    }
                }
                if y < n && (old.contains(y) || y == idx) {
                    if y < n - 1 {
                        assert(r.contains(y));
                        let k = choose|k: int| 0 <= k < r.len() && r[k] == y;
                        assert(t[k] == y);
                    } else {
                        assert(t[r.len() as int] == y);
                    }
                }
            }
        } else {
            assert forall|y: usize| #[trigger] r.contains(y) <==> (y < n && (old.contains(y) || y == idx)) by {
                if y < n && (old.contains(y) || y == idx) && y == n - 1 {
                    assert(y == top);
                }
            }
        }
    }
}

/// The revealed indices after `idx` is revealed hold exactly those before
/// and `idx`, sorted, without repeats.
proof fn lemma_revealed_after_sorted(old: Seq<usize>, idx: usize)
    ensures
        sorted_with(revealed_after(old, idx), old, idx),
{
    let n = usize::MAX + 1;
    lemma_marked_upto(old, idx, n);
    let w = marked_upto(old, idx, n);
    assert(sorted_with(w, old, idx));
    lemma_revealed_after(old, idx, w);
}

/// Every index below `n` that is not revealed is listed.
proof fn lemma_unrevealed_upto_complete(revealed: Seq<usize>, n: int, i: usize)
    requires
        i < n <= usize::MAX + 1,
        !revealed.contains(i),
    ensures
        unrevealed_upto(revealed, n).contains(i),
    decreases n,
{
    let r = unrevealed_upto(revealed, n - 1);
    if i < n - 1 {
        lemma_unrevealed_upto_complete(revealed, n - 1, i);
        if !revealed.contains((n - 1) as usize) {
            let k = choose|k: int| 0 <= k < r.len() && r[k] == i;
            assert(r.push((n - 1) as usize)[k] == i);
        }
    } else {
        assert(r.push((n - 1) as usize)[r.len() as int] == i);
    }
}

/// Where a letter of the answer is not revealed, the index a reveal picks
/// is one such letter.
proof fn lemma_picked_is_free(m: AppModel, free: usize)
    requires
        m.puzzles.len() > 0,
        current_answer(m).len() <= usize::MAX,
        free < current_answer(m).len(),
        !m.revealed_answer_indices.contains(free),
    ensures
        unrevealed_upto(m.revealed_answer_indices, current_answer(m).len() as int).len() > 0,
        picked_index(m) < current_answer(m).len(),
        !m.revealed_answer_indices.contains(picked_index(m)),
{
    let n = current_answer(m).len() as int;
    let list = unrevealed_upto(m.revealed_answer_indices, n);
    lemma_unrevealed_upto_complete(m.revealed_answer_indices, n, free);
    lemma_unrevealed_upto_members(m.revealed_answer_indices, n);
    assert(list.len() > 0);
    let k = (pick_source(m.rng_state) % (list.len() as usize)) as int;
    assert(0 <= k < list.len());
    assert(list[k] < n && !m.revealed_answer_indices.contains(list[k]));
}

/// A reveal that goes ahead locks exactly one letter of the answer that was
/// not locked before, keeps the locked letters sorted without repeats, and
/// costs the price of a letter.
proof fn lemma_reveal_locks_one_letter(m: AppModel, free: usize)
    requires
        !m.game_over,
        m.puzzles.len() > 0,
        m.score >= AppConfig::LETTER_REVEAL_COST_POINTS,
        current_answer(m).len() <= usize::MAX,
        free < current_answer(m).len(),
        !m.revealed_answer_indices.contains(free),
    ensures
        picked_index(m) < current_answer(m).len(),
        !m.revealed_answer_indices.contains(picked_index(m)),
        sorted_with(
            reveal_spec(m).revealed_answer_indices,
            m.revealed_answer_indices,
            picked_index(m),
        ),
        reveal_spec(m).score == m.score - AppConfig::LETTER_REVEAL_COST_POINTS,
{
    lemma_picked_is_free(m, free);
    let idx = picked_index(m);
    assert(reveal_spec(m) == reveal_picked(m, idx));
    lemma_revealed_after_sorted(m.revealed_answer_indices, idx);
    lemma_reveal_picked_fields(m, idx);
}

/// After a reveal that goes ahead, the slot of the picked letter shows the
/// answer's letter and is locked (clearing it removes nothing), the game is
/// over exactly when the score reached zero, and otherwise the typed text
/// has lost just the letter that stood on that slot, if one did.
proof fn lemma_reveal_slot_effects(m: AppModel, free: usize)
    requires
        !m.game_over,
        m.puzzles.len() > 0,
        m.score >= AppConfig::LETTER_REVEAL_COST_POINTS,
        current_answer(m).len() <= usize::MAX,
        free < current_answer(m).len(),
        !m.revealed_answer_indices.contains(free),
    ensures
        ({
            let idx = picked_index(m);
            let r = reveal_spec(m);
            &&& idx < current_answer(m).len()
            &&& !m.revealed_answer_indices.contains(idx)
            &&& current_answer(r) == current_answer(m)
            &&& slots_spec(r)[idx as int] == Some(current_answer(m)[idx as int])
            &&& !clear_slot_spec(r, idx as int).1
            &&& r.game_over == (r.score == 0)
            &&& r.score > 0 ==> r.user_input == clear_slot_spec(m, idx as int).0.user_input
            &&& r.score == 0 ==> r.user_input.len() == 0
            &&& r.puzzles == m.puzzles && r.current_index == m.current_index
        }),
{
    lemma_reveal_locks_one_letter(m, free);
    let idx = picked_index(m);
    let r = reveal_spec(m);
    assert(r == reveal_picked(m, idx));
    let paid = paid_reveal(m, idx);
    assert(r.puzzles == m.puzzles && r.current_index == m.current_index);
    assert(r.revealed_answer_indices.contains(idx));
    assert(slots_spec(r)[idx as int] == slot_spec(
        current_answer(r),
        r.revealed_answer_indices,
        r.user_input,
        idx as int,
    ));
    if paid.score != 0 {
        assert(r == with_message(paid, revealed_message(idx, current_answer(m)[idx as int])));
    }
}

/// The typed text after the slot `idx` is cleared, with `rv` revealed.
pub open spec fn input_after_clear(rv: Seq<usize>, input: Seq<char>, idx: usize) -> Seq<char> {
    if rv.contains(idx) || unrevealed_before(rv, idx as int) >= input.len() {
        input
    } else {
        input.remove(unrevealed_before(rv, idx as int))
    }
}

/// Counting the open slots of a reveal: where the typed text fitted the open
/// slots of `rv`, the text left after clearing the slot `idx` fits those of
/// `rv2`, which holds `rv` and `idx`.
proof fn lemma_reveal_count(rv: Seq<usize>, rv2: Seq<usize>, idx: usize, n: int, input: Seq<char>)
    requires
        0 <= n <= usize::MAX,
        sorted_with(rv2, rv, idx),
        (idx as int) < n,
        !rv.contains(idx),
        forall|k: int| 0 <= k < rv.len() ==> (#[trigger] rv[k] as int) < n,
        input.len() <= n - rv.len() || input.len() == 0,
    ensures
        forall|k: int| 0 <= k < rv2.len() ==> (#[trigger] rv2[k] as int) < n,
        input_after_clear(rv, input, idx).len() <= n - rv2.len(),
        rv2.len() <= n,
{
    assert forall|k: int| 0 <= k < rv2.len() implies (#[trigger] rv2[k] as int) < n by {
        assert(rv2.contains(rv2[k]));
        if rv.contains(rv2[k]) {
            let j = choose|j: int| 0 <= j < rv.len() && rv[j] == rv2[k];
            assert((rv[j] as int) < n);
        }
    }
    lemma_unrevealed_exact(rv2, n);
    lemma_unrevealed_add(rv2, rv, idx, n);
    lemma_unrevealed_at_least(rv, n);
    assert(unrevealed_before(rv, idx + 1) == unrevealed_before(rv, idx as int) + 1);
    lemma_unrevealed_mono(rv, idx + 1, n);
    lemma_unrevealed_mono(rv, 0, idx as int);
    lemma_unrevealed_mono(rv2, 0, n);
    assert(unrevealed_before(rv2, n) + 1 == unrevealed_before(rv, n));
    if !(unrevealed_before(rv, idx as int) >= input.len()) {
        assert(input.len() > 0);
        assert(input.remove(unrevealed_before(rv, idx as int)).len() == input.len() - 1);
    }
}

/// A reveal keeps the answer slots consistent: the locked letter lies in the
/// answer, and the typed text still fits the open slots that are left.
proof fn lemma_reveal_keeps_slots(m: AppModel)
    requires
        slots_consistent(m),
        reveal_affordable(m) ==> current_answer(m).len() <= usize::MAX,
    ensures
        slots_consistent(reveal_spec(m)),
{
    let n = current_answer(m).len() as int;
    let rv = m.revealed_answer_indices;
    let list = unrevealed_upto(rv, n);
    if m.game_over || m.puzzles.len() == 0 || m.score < AppConfig::LETTER_REVEAL_COST_POINTS
        || list.len() == 0 {
        return;
    }
    lemma_unrevealed_upto_members(rv, n);
    let free = list[0];
    lemma_reveal_slot_effects(m, free);
    lemma_reveal_locks_one_letter(m, free);
    let idx = picked_index(m);
    let r = reveal_spec(m);
    assert(clear_slot_spec(m, idx as int).0.user_input == input_after_clear(rv, m.user_input, idx));
    lemma_reveal_count(rv, r.revealed_answer_indices, idx, n, m.user_input);
}

/// Revealing the letter at `idx` locks the indices that `revealed_after`
/// gives and takes the price of a letter from the score.
proof fn lemma_reveal_picked_fields(m: AppModel, idx: usize)
    requires
        m.score >= AppConfig::LETTER_REVEAL_COST_POINTS,
    ensures
        reveal_picked(m, idx).revealed_answer_indices == revealed_after(
            m.revealed_answer_indices,
            idx,
        ),
        reveal_picked(m, idx).score == m.score - AppConfig::LETTER_REVEAL_COST_POINTS,
{
}

/// The open slots below `j` are no more than those below `k`, for `j <= k`.
pub proof fn lemma_unrevealed_mono(r: Seq<usize>, j: int, k: int)
    requires
        0 <= j <= k,
    ensures
        unrevealed_before(r, j) <= unrevealed_before(r, k),
    decreases k - j,
{
    if j < k {
        lemma_unrevealed_mono(r, j, k - 1);
    }
}

/// With nothing revealed, all `n` slots are open.
proof fn lemma_unrevealed_none(n: int)
    requires
        0 <= n,
    ensures
        unrevealed_before(Seq::<usize>::empty(), n) == n,
    decreases n,
{
    if n > 0 {
        lemma_unrevealed_none(n - 1);
    }
}

/// Two lists that hold the same indices below `k` leave as many slots open
/// below `k`.
proof fn lemma_unrevealed_same(a: Seq<usize>, b: Seq<usize>, k: int)
    requires
        0 <= k <= usize::MAX + 1,
        forall|y: usize| (y as int) < k ==> (#[trigger] a.contains(y) <==> b.contains(y)),
    ensures
        unrevealed_before(a, k) == unrevealed_before(b, k),
    decreases k,
{
    if k > 0 {
        lemma_unrevealed_same(a, b, k - 1);
        let y = (k - 1) as usize;
        assert(a.contains(y) <==> b.contains(y));
    }
}

/// Revealing one more index `x` closes the slot of `x`, if it lies below `k`
/// and was open, and no other.
proof fn lemma_unrevealed_add(a: Seq<usize>, b: Seq<usize>, x: usize, k: int)
    requires
        0 <= k <= usize::MAX + 1,
        forall|y: usize| #[trigger] a.contains(y) <==> (b.contains(y) || y == x),
    ensures
        unrevealed_before(a, k) <= unrevealed_before(b, k),
        unrevealed_before(b, k) <= unrevealed_before(a, k) + 1,
        !b.contains(x) ==> unrevealed_before(a, k) + (if (x as int) < k {
            1int
        } else {
            0int
        }) == unrevealed_before(b, k),
    decreases k,
{
    if k > 0 {
        lemma_unrevealed_add(a, b, x, k - 1);
        let y = (k - 1) as usize;
        assert(a.contains(y) <==> (b.contains(y) || y == x));
    }
}

/// Any list of revealed indices closes at most as many of the first `n`
/// slots as it is long.
pub proof fn lemma_unrevealed_at_least(r: Seq<usize>, n: int)
    requires
        0 <= n <= usize::MAX + 1,
    ensures
        unrevealed_before(r, n) >= n - r.len(),
    decreases r.len(),
{
    if r.len() == 0 {
        assert(r =~= Seq::<usize>::empty());
        lemma_unrevealed_none(n);
    } else {
        let b = r.drop_last();
        let x = r.last();
        lemma_unrevealed_at_least(b, n);
        assert forall|y: usize| #[trigger] r.contains(y) <==> (b.contains(y) || y == x) by {
            if r.contains(y) {
                let j = choose|j: int| 0 <= j < r.len() && r[j] == y;
                if j < r.len() - 1 {
                    assert(b[j] == y);
                }
            }
            if b.contains(y) {
                let j = choose|j: int| 0 <= j < b.len() && b[j] == y;
                assert(r[j] == y);
            }
            if y == x {
                assert(r[r.len() - 1] == y);
            }
        }
        lemma_unrevealed_add(r, b, x, n);
    }
}

/// A strictly increasing list of indices below `n` leaves exactly `n` less
/// its length of the first `n` slots open.
pub proof fn lemma_unrevealed_exact(s: Seq<usize>, n: int)
    requires
        0 <= n <= usize::MAX + 1,
        strictly_increasing(s),
        forall|k: int| 0 <= k < s.len() ==> (#[trigger] s[k] as int) < n,
    ensures
        unrevealed_before(s, n) == n - s.len(),
    decreases n,
{
    if n == 0 {
        if s.len() > 0 {
            assert((s[0] as int) < 0);
        }
    } else {
        let top = (n - 1) as usize;
        if s.contains(top) {
            let j = choose|j: int| 0 <= j < s.len() && s[j] == top;
            if j < s.len() - 1 {
                assert(s[j] < s[s.len() - 1]);
                assert((s[s.len() - 1] as int) < n);
            }
            let b = s.drop_last();
            assert forall|k: int| 0 <= k < b.len() implies (#[trigger] b[k] as int) < n - 1 by {
                assert(s[k] < s[s.len() - 1]);
            }
            lemma_unrevealed_exact(b, n - 1);
            assert forall|y: usize| (y as int) < n - 1 implies (#[trigger] s.contains(y)
                <==> b.contains(y)) by {
                if s.contains(y) {
                    let i = choose|i: int| 0 <= i < s.len() && s[i] == y;
                    if i < s.len() - 1 {
                        assert(b[i] == y);
                    }
                }
                if b.contains(y) {
                    let i = choose|i: int| 0 <= i < b.len() && b[i] == y;
                    assert(s[i] == y);
                }
            }
            lemma_unrevealed_same(s, b, n - 1);
        } else {
            assert forall|k: int| 0 <= k < s.len() implies (#[trigger] s[k] as int) < n - 1 by {
                assert(s[k] != top);
            }
            lemma_unrevealed_exact(s, n - 1);
        }
    }
}

/// Inserts `x` into a strictly increasing list, unless it is there already.
fn insert_sorted(v: &mut Vec<usize>, x: usize)
    requires
        strictly_increasing(old(v)@),
    ensures
        strictly_increasing(final(v)@),
        forall|y: usize| #[trigger] final(v)@.contains(y) <==> (old(v)@.contains(y) || y == x),
{
    let ghost b = v@;
    let mut p: usize = 0;
    while p < v.len() && v[p] < x
        invariant
            v@ == b,
            p <= v.len(),
            forall|k: int| 0 <= k < p ==> #[trigger] b[k] < x,
        decreases v.len() - p,
    {
        p += 1;
    }
    if p < v.len() && v[p] == x {
        assert(b.contains(x));
        return;
    }
    v.insert(p, x);
    let ghost c = v@;
    assert(c == b.insert(p as int, x));
    assert forall|i: int, j: int| 0 <= i < j < c.len() implies #[trigger] c[i] < #[trigger] c[j] by {
        if j < p {
        } else if j == p {
        } else if i < p {
            assert(c[j] == b[j - 1]);
        } else if i == p {
            assert(c[j] == b[j - 1]);
            assert(b[p as int] < x || b[p as int] == x || b[p as int] > x);
        } else {
            assert(c[i] == b[i - 1] && c[j] == b[j - 1]);
        }
    }
    assert forall|y: usize| #[trigger] c.contains(y) <==> (b.contains(y) || y == x) by {
        if c.contains(y) {
            let k = choose|k: int| 0 <= k < c.len() && c[k] == y;
            if k < p {
                assert(b[k] == y);
            } else if k > p {
                assert(b[k - 1] == y);
            }
        }
        if b.contains(y) {
            let k = choose|k: int| 0 <= k < b.len() && b[k] == y;
            if k < p {
                assert(c[k] == y);
            } else {
                assert(c[k + 1] == y);
            }
        }
        if y == x {
            assert(c[p as int] == x);
        }
    }
}

/// The indices of `old` and `idx`, sorted, without repeats.
fn sorted_indices_with(old: &Vec<usize>, idx: usize) -> (r: Vec<usize>)
    ensures
        r@ == revealed_after(old@, idx),
{
    let mut out: Vec<usize> = Vec::new();
    let mut i: usize = 0;
    while i < old.len()
        invariant
            i <= old.len(),
            strictly_increasing(out@),
            forall|y: usize| #[trigger] out@.contains(y) <==> old@.take(i as int).contains(y),
        decreases old.len() - i,
    {
        let ghost before = out@;
        let ghost t0 = old@.take(i as int);
        let ghost t1 = old@.take(i + 1);
        insert_sorted(&mut out, old[i]);
        assert(t1 =~= t0.push(old@[i as int]));
        assert forall|y: usize| #[trigger] out@.contains(y) <==> t1.contains(y) by {
            if t1.contains(y) {
                let k = choose|k: int| 0 <= k < t1.len() && t1[k] == y;
                if k < i {
                    assert(t0[k] == y);
                    assert(t0.contains(y));
                    assert(before.contains(y));
                }
            }
            if out@.contains(y) {
                if before.contains(y) {
                    assert(t0.contains(y));
                    let k = choose|k: int| 0 <= k < t0.len() && t0[k] == y;
                    assert(t1[k] == y);
                } else {
                    assert(t1[i as int] == y);
                }
            }
        }
        i += 1;
    }
    assert(old@.take(old@.len() as int) =~= old@);
    insert_sorted(&mut out, idx);
    proof {
        lemma_revealed_after(old@, idx, out@);
    }
    out
}

/// The number the generator state gives for picking a letter.
fn pick_number(state: u64) -> (n: usize)
    ensures
        n == pick_source(state),
{
    if state <= usize::MAX as u64 {
        state as usize
    } else {
        usize::MAX
    }
}

/// The message that announces the letter revealed at `idx`.
fn revealed_message_text(idx: usize, letter: char) -> (text: String)
    requires
        idx < usize::MAX,
    ensures
        text@ == revealed_message(idx, letter),
{
    let mut text = String::from_str("Letter revealed: letter ");
    push_decimal(&mut text, idx as u64 + 1);
    text.append(" is '");
    push_char(&mut text, letter);
    text.append("' (-");
    push_decimal(&mut text, AppConfig::LETTER_REVEAL_COST_POINTS as u64);
    text.append(" points)");
    text
}

/// The message shown when the score cannot pay for a letter.
fn need_points_text() -> (text: String)
    ensures
        text@ == need_points_message(),
{
    let mut text = String::from_str("Need ");
    push_decimal(&mut text, AppConfig::LETTER_REVEAL_COST_POINTS as u64);
    text.append(" points to reveal a letter");
    text
}

impl LexivoApp {
    /// The indices below `n` that are not revealed, in increasing order.
    fn unrevealed_indices(&self, n: usize) -> (r: Vec<usize>)
        ensures
            r@ == unrevealed_upto(self@.revealed_answer_indices, n as int),
    {
        let mut out: Vec<usize> = Vec::new();
        let mut i: usize = 0;
        while i < n
            invariant
                i <= n,
                out@ == unrevealed_upto(self@.revealed_answer_indices, i as int),
            decreases n - i,
        {
            if !self.is_revealed_answer_index(i) {
                out.push(i);
            }
            i += 1;
        }
        out
    }

    /// Ends the game when a reveal has taken the score to zero.
    fn end_by_reveal(&mut self)
        ensures
            final(self)@ == hint_game_over(old(self)@),
    {
        self.game_over = true;
        self.streak = 0;
        self.record_score();
        self.set_message("Game over! Score reached zero.");
        self.user_input = String::new();
        self.auto_focus = true;
        self.daily_challenge_active = false;
    }

    /// Locks the revealed indices, steps the generator and takes the cost of
    /// a letter from the score.
    fn charge_reveal(&mut self, revealed: Vec<usize>, next_state: u64)
        requires
            old(self).score >= AppConfig::LETTER_REVEAL_COST_POINTS,
        ensures
            final(self)@ == (AppModel {
                rng_state: next_state,
                revealed_answer_indices: revealed@,
                score: (old(self)@.score - AppConfig::LETTER_REVEAL_COST_POINTS) as u32,
                ..old(self)@
            }),
    {
        self.rng_state = next_state;
        self.revealed_answer_indices = revealed;
        self.score = self.score - AppConfig::LETTER_REVEAL_COST_POINTS;
    }

    /// Reveals the letter at `idx` and takes its cost from the score.
    fn pay_for_reveal(&mut self, idx: usize)
        requires
            old(self).score >= AppConfig::LETTER_REVEAL_COST_POINTS,
        ensures
            final(self)@ == paid_reveal(old(self)@, idx),
    {
        let next_state = self.rng_state.wrapping_mul(6364136223846793005).wrapping_add(
            1442695040888963407,
        );
        let revealed = sorted_indices_with(&self.revealed_answer_indices, idx);
        self.remove_manual_input_for_slot(idx);
        self.charge_reveal(revealed, next_state);
    }

    /// Reveals the letter at `idx`, whose letter is `letter`, and tells the
    /// player, or ends the game where the score reaches zero.
    fn reveal_at(&mut self, idx: usize, letter: char)
        requires
            idx < usize::MAX,
            old(self).score >= AppConfig::LETTER_REVEAL_COST_POINTS,
        ensures
            letter == current_answer(old(self)@)[idx as int] ==> final(self)@ == reveal_picked(
                old(self)@,
                idx,
            ),
    {
        self.pay_for_reveal(idx);
        if self.score == 0 {
            self.end_by_reveal();
            return;
        }
        let text = revealed_message_text(idx, letter);
        self.set_message(text.as_str());
    }

    /// Reveals one letter as `reveal_hint_letter` does; where the reveal
    /// gets as far as picking a letter, the answer's length fits a `usize`.
    #[verifier::rlimit(40)]
    fn reveal_one_letter(&mut self)
        requires
            index_valid(old(self)@),
        ensures
            final(self)@ == reveal_spec(old(self)@),
            reveal_affordable(old(self)@) ==> current_answer(old(self)@).len() <= usize::MAX,
    {
        if self.game_over {
            return;
        }
        if self.puzzles.len() == 0 {
            self.set_message("No puzzles loaded");
            return;
        }
        if self.score < AppConfig::LETTER_REVEAL_COST_POINTS {
            let text = need_points_text();
            self.set_message(text.as_str());
            return;
        }
        let answer = self.current_answer_chars();
        assert(answer@.len() == answer.len());
        let free = self.unrevealed_indices(answer.len());
        if free.len() == 0 {
            self.set_message("All letters are already revealed for this answer.");
            return;
        }
        proof {
            lemma_unrevealed_upto_members(self@.revealed_answer_indices, answer@.len() as int);
        }
        let offset = pick_number(self.rng_state) % free.len();
        let idx = free[offset];
        let letter = answer[idx];
        self.reveal_at(idx, letter);
    }

    /// Reveals one letter of the answer that is not yet revealed, for a cost
    /// in points; the game ends when the score reaches zero. A reveal that
    /// goes ahead locks exactly one letter that was not locked before, and
    /// every reveal keeps the answer slots consistent.
    pub fn reveal_hint_letter(&mut self)
        requires
            index_valid(old(self)@),
        ensures
            final(self)@ == reveal_spec(old(self)@),
            reveal_goes_ahead(old(self)@) ==> exists|idx: usize|
                #[trigger] reveal_effects(old(self)@, final(self)@, idx),
            slots_consistent(old(self)@) ==> slots_consistent(final(self)@),
    {
        let ghost m = self@;
        self.reveal_one_letter();
        proof {
            if slots_consistent(m) {
                lemma_reveal_keeps_slots(m);
            }
            if reveal_goes_ahead(m) {
                let f = choose|f: usize|
                    f < current_answer(m).len() && !#[trigger] m.revealed_answer_indices.contains(f);
                lemma_reveal_slot_effects(m, f);
                lemma_reveal_locks_one_letter(m, f);
                assert(reveal_effects(m, self@, picked_index(m)));
            }
        }
    }
}

} // verus!

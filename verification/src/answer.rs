//! The answer slots: letters typed by the player and letters revealed by
//! hints, merged into the word that is checked.
use crate::app::{AppModel, LexivoApp};
use crate::text::{
    char_alphanumeric, chars_of, is_alphanumeric, push_char, str_uppercase, string_from_chars,
    string_from_range, to_uppercase,
};
use crate::utils::{normalise_answer, normalise_spec};
use vstd::prelude::*;

verus! {

/// Whether the current index names a puzzle, whenever there is one.
pub open spec fn index_valid(m: AppModel) -> bool {
    m.puzzles.len() > 0 ==> m.current_index < m.puzzles.len()
}

/// The answer of the current puzzle, or nothing when no puzzle is loaded.
pub open spec fn current_answer(m: AppModel) -> Seq<char> {
    if m.puzzles.len() == 0 {
        seq![]
    } else {
        m.puzzles[m.current_index as int]@.answer
    }
}

/// How many slots the player can still fill: the answer's length less the
/// number of revealed indices, and at least zero.
pub open spec fn max_manual_spec(m: AppModel) -> int {
    let n = current_answer(m).len() - m.revealed_answer_indices.len();
    if n > 0 { n } else { 0 }
}

/// How many of the slots before `i` are not revealed.
pub open spec fn unrevealed_before(revealed: Seq<usize>, i: int) -> int
    decreases i,
{
    if i <= 0 {
        0
    } else {
        unrevealed_before(revealed, i - 1) + if revealed.contains((i - 1) as usize) { 0int } else { 1int }
    }
}

/// Slot `i` of the answer: a revealed letter, or else the typed letter that
/// falls on it (the slots that are not revealed take the typed letters in
/// order), or else nothing.
pub open spec fn slot_spec(answer: Seq<char>, revealed: Seq<usize>, input: Seq<char>, i: int) -> Option<char> {
    if revealed.contains(i as usize) {
        Some(answer[i])
    } else if unrevealed_before(revealed, i) < input.len() {
        Some(input[unrevealed_before(revealed, i)])
    } else {
        None
    }
}

/// All slots of the current answer.
pub open spec fn slots_spec(m: AppModel) -> Seq<Option<char>> {
    Seq::new(
        current_answer(m).len(),
        |i: int| slot_spec(current_answer(m), m.revealed_answer_indices, m.user_input, i),
    )
}

/// The word that the slots spell, when all of them are filled.
pub open spec fn composed_spec(slots: Seq<Option<char>>) -> Option<Seq<char>> {
    if forall|i: int| 0 <= i < slots.len() ==> #[trigger] slots[i] is Some {
        Some(Seq::new(slots.len(), |i: int| slots[i]->0))
    } else {
        None
    }
}

/// `s` without its character at `index`, if there is one.
pub open spec fn remove_at_spec(s: Seq<char>, index: int) -> Seq<char> {
    if 0 <= index < s.len() {
        s.remove(index)
    } else {
        s
    }
}

/// `char_alphanumeric` as a predicate value.
pub open spec fn alphanumeric_pred() -> spec_fn(char) -> bool {
    |c: char| char_alphanumeric(c)
}

/// Upper-cased typed text cleaned: reduced to its alphanumeric characters,
/// and cut to at most `max` of them.
pub open spec fn clean_spec(upper: Seq<char>, max: int) -> Seq<char> {
    let f = upper.filter(alphanumeric_pred());
    if max < f.len() { f.take(max) } else { f }
}

/// Typed text cleaned: upper-cased, reduced to its alphanumeric characters,
/// and cut to at most `max` of them.
pub open spec fn sync_spec(input: Seq<char>, max: int) -> Seq<char> {
    clean_spec(str_uppercase(input), max)
}

/// Typed text after the slot `slot` is cleared: the typed letter that falls
/// on it, if any, is removed.
pub open spec fn clear_slot_spec(m: AppModel, slot: int) -> (AppModel, bool) {
    if m.revealed_answer_indices.contains(slot as usize) || unrevealed_before(
        m.revealed_answer_indices,
        slot,
    ) >= m.user_input.len() {
        (m, false)
    } else {
        (
            AppModel {
                user_input: m.user_input.remove(unrevealed_before(m.revealed_answer_indices, slot)),
                ..m
            },
            true,
        )
    }
}

/// The first slot that is still empty, if any.
pub open spec fn first_empty_spec(slots: Seq<Option<char>>) -> Option<usize> {
    if exists|i: int| 0 <= i < slots.len() && #[trigger] slots[i] is None {
        Some(
            (choose|i: int|
                0 <= i < slots.len() && slots[i] is None && forall|j: int|
                    0 <= j < i ==> #[trigger] slots[j] is Some) as usize,
        )
    } else {
        None
    }
}

/// The state after a letter that fits is typed into a slot: the letter
/// joins the typed text and the text is cleaned, and focus moves to the
/// first slot still empty.
pub open spec fn typed_spec(m: AppModel, c: char) -> AppModel {
    let typed = AppModel { user_input: sync_spec(m.user_input.push(c), max_manual_spec(m)), ..m };
    AppModel { focused_slot: first_empty_spec(slots_spec(typed)), auto_focus: true, ..typed }
}

/// Whether the answer slots are consistent: the current index names a puzzle
/// whenever one is loaded, every revealed index names a letter of the
/// answer, and no more letters are typed than there are open slots.
pub open spec fn slots_consistent(m: AppModel) -> bool {
    &&& index_valid(m)
    &&& forall|k: int|
        0 <= k < m.revealed_answer_indices.len() ==> (#[trigger] m.revealed_answer_indices[k] as int)
            < current_answer(m).len()
    &&& m.user_input.len() <= max_manual_spec(m)
}

/// `s` without its last character, if it has one.
pub open spec fn drop_last_spec(s: Seq<char>) -> Seq<char> {
    if s.len() > 0 {
        s.drop_last()
    } else {
        s
    }
}

/// Cleaning the typed text leaves no more letters than there are open
/// slots, and only alphanumeric ones.
pub proof fn lemma_sync_fits(input: Seq<char>, max: int)
    requires
        max >= 0,
    ensures
        sync_spec(input, max).len() <= max,
        forall|i: int|
            0 <= i < sync_spec(input, max).len() ==> char_alphanumeric(
                #[trigger] sync_spec(input, max)[i],
            ),
{
    let f = str_uppercase(input).filter(alphanumeric_pred());
    str_uppercase(input).filter_lemma(alphanumeric_pred());
    assert forall|i: int| 0 <= i < sync_spec(input, max).len() implies char_alphanumeric(
        #[trigger] sync_spec(input, max)[i],
    ) by {
        assert(sync_spec(input, max)[i] == f[i]);
        assert(alphanumeric_pred()(f[i]));
    }
}

proof fn lemma_unrevealed_before_bounds(revealed: Seq<usize>, i: int)
    ensures
        0 <= unrevealed_before(revealed, i),
        i >= 0 ==> unrevealed_before(revealed, i) <= i,
    decreases i,
{
    if i > 0 {
        lemma_unrevealed_before_bounds(revealed, i - 1);
    }
}

/// `s` without its last character, if it has one.
fn without_last(s: &str) -> (r: String)
    ensures
        r@ == drop_last_spec(s@),
{
    let chars = chars_of(s);
    let n = chars.len();
    if n == 0 {
        return string_from_chars(&chars);
    }
    assert(chars@.subrange(0, n - 1) =~= chars@.drop_last());
    string_from_range(&chars, 0, n - 1)
}

/// The first character of `entered` upper-cased, if upper-casing gives any.
fn first_upper(entered: char) -> (r: Option<char>)
    ensures
        r == (if str_uppercase(seq![entered]).len() == 0 {
            None
        } else {
            Some(str_uppercase(seq![entered])[0])
        }),
{
    let mut one = String::new();
    push_char(&mut one, entered);
    assert(one@ =~= seq![entered]);
    let upper = chars_of(to_uppercase(one.as_str()).as_str());
    if upper.len() == 0 {
        None
    } else {
        Some(upper[0])
    }
}

/// Cleans upper-cased typed text: its alphanumeric characters, in order,
/// cut to at most `max` of them.
pub fn clean_typed(upper_text: &str, max: usize) -> (r: String)
    ensures
        r@ == clean_spec(upper_text@, max as int),
{
    let upper = chars_of(upper_text);
    let ghost f = upper@.filter(alphanumeric_pred());
    let mut clean: Vec<char> = Vec::new();
    let mut i: usize = 0;
    while i < upper.len()
        invariant
            i <= upper.len(),
            f == upper@.filter(alphanumeric_pred()),
            clean@ == upper@.take(i as int).filter(alphanumeric_pred()),
            clean@.len() <= max,
        ensures
            i <= upper.len(),
            f == upper@.filter(alphanumeric_pred()),
            clean@ == upper@.take(i as int).filter(alphanumeric_pred()),
            clean@.len() <= max,
            i < upper.len() ==> clean@.len() == max,
        decreases upper.len() - i,
    {
        if clean.len() >= max {
            break;
        }
        let c = upper[i];
        proof {
            upper@.take(i as int).lemma_filter_push(c, alphanumeric_pred());
            assert(upper@.take(i + 1) =~= upper@.take(i as int).push(c));
        }
        if is_alphanumeric(c) {
            clean.push(c);
        }
        i += 1;
    }
    proof {
        let t = upper@.take(i as int);
        assert(upper@ =~= t + upper@.skip(i as int));
        Seq::<char>::filter_distributes_over_add(t, upper@.skip(i as int), alphanumeric_pred());
        assert(clean@ =~= f.take(clean@.len() as int)) by {
            assert(f =~= clean@ + upper@.skip(i as int).filter(alphanumeric_pred()));
        }
        if i < upper.len() {
            assert(clean@.len() == max);
        } else {
            assert(t =~= upper@);
        }
    }
    string_from_chars(&clean)
}

impl LexivoApp {
    /// Sanitises and normalises input for comparison against answers.
    pub fn normalise_input(value: &str) -> (r: String)
        ensures
            r@ == normalise_spec(value@),
    {
        normalise_answer(value)
    }

    /// The characters of the current answer.
    pub fn current_answer_chars(&self) -> (r: Vec<char>)
        requires
            index_valid(self@),
        ensures
            r@ == current_answer(self@),
    {
        if self.puzzles.len() == 0 {
            return Vec::new();
        }
        chars_of(self.puzzles[self.current_index].answer.as_str())
    }

    /// Whether the answer letter at `index` was revealed.
    pub fn is_revealed_answer_index(&self, index: usize) -> (b: bool)
        ensures
            b == self@.revealed_answer_indices.contains(index),
    {
        let mut i: usize = 0;
        while i < self.revealed_answer_indices.len()
            invariant
                i <= self.revealed_answer_indices.len(),
                forall|k: int| 0 <= k < i ==> self.revealed_answer_indices@[k] != index,
            decreases self.revealed_answer_indices.len() - i,
        {
            if self.revealed_answer_indices[i] == index {
                return true;
            }
            i += 1;
        }
        false
    }

    /// How many letters the player can still type.
    pub fn max_manual_input_len(&self) -> (n: usize)
        requires
            index_valid(self@),
        ensures
            n == max_manual_spec(self@),
    {
        let answer_len = self.current_answer_chars().len();
        answer_len.saturating_sub(self.revealed_answer_indices.len())
    }

    /// The slots of the current answer, revealed and typed letters merged.
    pub fn answer_slots(&self) -> (slots: Vec<Option<char>>)
        requires
            index_valid(self@),
        ensures
            slots@ == slots_spec(self@),
    {
        let answer = self.current_answer_chars();
        let input = chars_of(self.user_input.as_str());
        let mut slots: Vec<Option<char>> = Vec::new();
        let mut typed: usize = 0;
        let mut i: usize = 0;
        while i < answer.len()
            invariant
                i <= answer.len(),
                answer@ == current_answer(self@),
                input@ == self@.user_input,
                typed == unrevealed_before(self@.revealed_answer_indices, i as int),
                slots@.len() == i,
                forall|k: int| 0 <= k < i ==> #[trigger] slots@[k] == slot_spec(
                    answer@,
                    self@.revealed_answer_indices,
                    input@,
                    k,
                ),
            decreases answer.len() - i,
        {
            proof {
                lemma_unrevealed_before_bounds(self@.revealed_answer_indices, i as int);
            }
            if self.is_revealed_answer_index(i) {
                slots.push(Some(answer[i]));
            } else {
                if typed < input.len() {
                    slots.push(Some(input[typed]));
                } else {
                    slots.push(None);
                }
                typed += 1;
            }
            i += 1;
        }
        assert(slots@ =~= slots_spec(self@));
        slots
    }

    /// The position in the typed text of the letter that falls on `slot`;
    /// none for a revealed slot.
    pub fn manual_input_index_for_slot(&self, slot_index: usize) -> (r: Option<usize>)
        ensures
            self@.revealed_answer_indices.contains(slot_index) ==> r is None,
            !self@.revealed_answer_indices.contains(slot_index) ==> r is Some,
            r matches Some(x) ==> x == unrevealed_before(self@.revealed_answer_indices, slot_index as int),
    {
        if self.is_revealed_answer_index(slot_index) {
            return None;
        }
        let mut count: usize = 0;
        let mut i: usize = 0;
        while i < slot_index
            invariant
                i <= slot_index,
                count == unrevealed_before(self@.revealed_answer_indices, i as int),
            decreases slot_index - i,
        {
            proof {
                lemma_unrevealed_before_bounds(self@.revealed_answer_indices, i as int);
                lemma_unrevealed_before_bounds(self@.revealed_answer_indices, i + 1);
            }
            if !self.is_revealed_answer_index(i) {
                count += 1;
            }
            i += 1;
        }
        Some(count)
    }

    /// `value` without its character at `index`.
    pub fn remove_char_at(value: &str, index: usize) -> (r: String)
        ensures
            r@ == remove_at_spec(value@, index as int),
    {
        let chars = chars_of(value);
        let mut out = String::new();
        let mut i: usize = 0;
        while i < chars.len()
            invariant
                i <= chars.len(),
                chars@ == value@,
                out@ == remove_at_spec(chars@.take(i as int), index as int),
            decreases chars.len() - i,
        {
            if i != index {
                push_char(&mut out, chars[i]);
            }
            proof {
                let t = chars@.take(i as int);
                let t1 = chars@.take(i + 1);
                assert(t1 =~= t.push(chars@[i as int]));
                if index < i {
                    assert(t1.remove(index as int) =~= t.remove(index as int).push(chars@[i as int]));
                } else if index == i {
                    assert(t1.remove(index as int) =~= t);
                }
            }
            i += 1;
        }
        assert(chars@.take(i as int) =~= chars@);
        out
    }

    /// Removes the typed letter that falls on `slot_index`, if any; tells
    /// whether one was removed.
    pub fn remove_manual_input_for_slot(&mut self, slot_index: usize) -> (removed: bool)
        ensures
            (final(self)@, removed) == clear_slot_spec(old(self)@, slot_index as int),
    {
        let manual_index = match self.manual_input_index_for_slot(slot_index) {
            Some(m) => m,
            None => {
                return false;
            },
        };
        let count = chars_of(self.user_input.as_str()).len();
        if manual_index >= count {
            return false;
        }
        self.user_input = Self::remove_char_at(self.user_input.as_str(), manual_index);
        true
    }

    /// The word that the slots spell, when all of them are filled.
    pub fn composed_answer_from_slots(&self) -> (r: Option<String>)
        requires
            index_valid(self@),
        ensures
            match r {
                Some(s) => composed_spec(slots_spec(self@)) == Some(s@),
                None => composed_spec(slots_spec(self@)) is None,
            },
    {
        let slots = self.answer_slots();
        let mut word: Vec<char> = Vec::new();
        let mut i: usize = 0;
        while i < slots.len()
            invariant
                i <= slots.len(),
                slots@ == slots_spec(self@),
                word@.len() == i,
                forall|k: int| 0 <= k < i ==> #[trigger] slots@[k] is Some && word@[k] == slots@[k]->0,
            decreases slots.len() - i,
        {
            match slots[i] {
                Some(c) => word.push(c),
                None => {
                    return None;
                },
            }
            i += 1;
        }
        assert(word@ =~= Seq::new(slots@.len(), |k: int| slots@[k]->0));
        Some(string_from_chars(&word))
    }

    /// Whether another letter can be typed: typing is limited only by the
    /// number of open slots.
    pub fn can_append_char(&self, _tapped_char: char) -> (b: bool)
        requires
            index_valid(self@),
        ensures
            b == (self@.user_input.len() < max_manual_spec(self@)),
    {
        let max_len = self.max_manual_input_len();
        chars_of(self.user_input.as_str()).len() < max_len
    }

    /// Cleans the typed text: upper case, alphanumeric characters only, and
    /// no more than the open slots.
    pub fn sync_manual_input(&mut self)
        requires
            index_valid(old(self)@),
        ensures
            final(self)@ == (AppModel {
                user_input: sync_spec(old(self)@.user_input, max_manual_spec(old(self)@)),
                ..old(self)@
            }),
    {
        let max_len = self.max_manual_input_len();
        let upper = to_uppercase(self.user_input.as_str());
        let clean = clean_typed(upper.as_str(), max_len);
        self.user_input = clean;
    }

    /// Adds a tapped letter tile to the typed text, where a slot is open.
    pub fn tap_tile(&mut self, c: char)
        requires
            index_valid(old(self)@),
        ensures
            final(self)@ == (if old(self)@.user_input.len() < max_manual_spec(old(self)@) {
                AppModel { user_input: old(self)@.user_input.push(c), ..old(self)@ }
            } else {
                old(self)@
            }),
    {
        if self.can_append_char(c) {
            push_char(&mut self.user_input, c);
        }
    }

    /// The first slot that is still empty, if any.
    pub fn first_empty_slot(&self) -> (r: Option<usize>)
        requires
            index_valid(self@),
        ensures
            r == first_empty_spec(slots_spec(self@)),
    {
        let slots = self.answer_slots();
        let mut i: usize = 0;
        while i < slots.len()
            invariant
                i <= slots.len(),
                slots@ == slots_spec(self@),
                forall|j: int| 0 <= j < i ==> #[trigger] slots@[j] is Some,
            decreases slots.len() - i,
        {
            if slots[i].is_none() {
                assert(slots@[i as int] is None);
                let ghost k = choose|k: int|
                    0 <= k < slots@.len() && slots@[k] is None && forall|j: int|
                        0 <= j < k ==> #[trigger] slots@[j] is Some;
                assert(k == i) by {
                    if k < i {
                        assert(slots@[k] is Some);
                    } else if k > i {
                        assert(slots@[i as int] is Some);
                    }
                }
                return Some(i);
            }
            i += 1;
        }
        None
    }

    /// Types `c` into the focused slot: the letter joins the typed text,
    /// which is cleaned, and focus moves to the first slot still empty;
    /// where no more letters fit, the slot loses focus.
    pub fn type_into_slot(&mut self, c: char)
        requires
            index_valid(old(self)@),
        ensures
            old(self)@.user_input.len() < max_manual_spec(old(self)@) ==> final(self)@ == typed_spec(
                old(self)@,
                c,
            ),
            old(self)@.user_input.len() >= max_manual_spec(old(self)@) ==> final(self)@ == (AppModel {
                focused_slot: None,
                ..old(self)@
            }),
    {
        if !self.can_append_char(c) {
            self.focused_slot = None;
            return;
        }
        self.append_and_refocus(c);
    }

    /// Types a character as the player entered it into the focused slot: its
    /// first upper-case character is typed as `type_into_slot` types it, and
    /// where upper-casing gives nothing the slot loses focus.
    pub fn enter_char(&mut self, entered: char)
        requires
            index_valid(old(self)@),
        ensures
            ({
                let u = str_uppercase(seq![entered]);
                &&& u.len() == 0 ==> final(self)@ == (AppModel { focused_slot: None, ..old(self)@ })
                &&& u.len() > 0 && old(self)@.user_input.len() < max_manual_spec(old(self)@)
                    ==> final(self)@ == typed_spec(old(self)@, u[0])
                &&& u.len() > 0 && old(self)@.user_input.len() >= max_manual_spec(old(self)@)
                    ==> final(self)@ == (AppModel { focused_slot: None, ..old(self)@ })
            }),
    {
        match first_upper(entered) {
            Some(c) => self.type_into_slot(c),
            None => {
                self.focused_slot = None;
            },
        }
    }

    /// Adds `c` to the typed text, cleans the text and focuses the first
    /// slot still empty.
    fn append_and_refocus(&mut self, c: char)
        requires
            index_valid(old(self)@),
        ensures
            final(self)@ == typed_spec(old(self)@, c),
    {
        push_char(&mut self.user_input, c);
        self.sync_manual_input();
        let next = self.first_empty_slot();
        self.focused_slot = next;
        self.auto_focus = true;
    }

    /// Erases the last typed letter, and the slot loses focus.
    pub fn erase_last_typed(&mut self)
        ensures
            final(self)@ == (AppModel {
                user_input: drop_last_spec(old(self)@.user_input),
                focused_slot: None,
                ..old(self)@
            }),
    {
        let kept = without_last(self.user_input.as_str());
        self.user_input = kept;
        self.focused_slot = None;
    }

    /// Gives focus to an empty slot.
    pub fn focus_slot(&mut self, slot: usize)
        ensures
            final(self)@ == (AppModel { focused_slot: Some(slot), auto_focus: true, ..old(self)@ }),
    {
        self.focused_slot = Some(slot);
        self.auto_focus = true;
    }

    /// Clears a tapped slot of its typed letter, and asks for input focus
    /// where one was removed.
    pub fn clear_slot(&mut self, slot: usize)
        ensures
            final(self)@ == (if clear_slot_spec(old(self)@, slot as int).1 {
                AppModel { auto_focus: true, ..clear_slot_spec(old(self)@, slot as int).0 }
            } else {
                old(self)@
            }),
    {
        if self.remove_manual_input_for_slot(slot) {
            self.auto_focus = true;
        }
    }
}

} // verus!

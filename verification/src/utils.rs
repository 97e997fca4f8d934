//! General-purpose helpers: answer normalisation, seeds and shuffling.
use crate::text::{
    all_ascii, ascii_upper, chars_of, is_ascii_alphanumeric, is_ascii_alphanumeric_spec,
    is_ascii_lower, push_char, str_uppercase, string_from_chars, string_from_range, to_uppercase,
    trim_bounds, trim_end_spec, trim_spec, trim_start_spec, uppercase_facts,
};
use crate::types::Difficulty;
use vstd::prelude::*;

verus! {

/// The daily seed of the day that `epoch_seconds` falls in.
pub open spec fn daily_seed_spec(epoch_seconds: u64) -> u64 {
    (epoch_seconds / 86_400) ^ 0x00C0_FFEE_1234u64
}

/// The constant that separates the seeds of the difficulties.
pub open spec fn difficulty_twist(level: Difficulty) -> u64 {
    match level {
        Difficulty::Easy => 0x11_11_11_11_11_11_11u64,
        Difficulty::Medium => 0x22_22_22_22_22_22_22u64,
        Difficulty::Hard => 0x33_33_33_33_33_33_33u64,
    }
}

/// Generates a stable seed for the daily challenge based on the date.
pub fn daily_seed_for_day(epoch_seconds: u64) -> (seed: u64)
    ensures
        seed == daily_seed_spec(epoch_seconds),
{
    let days_since_epoch = epoch_seconds / 86_400;
    days_since_epoch ^ 0x00C0_FFEE_1234u64
}

/// Generates a stable, difficulty-specific seed for the daily challenge.
pub fn daily_seed_for_difficulty(level: Difficulty, epoch_seconds: u64) -> (seed: u64)
    ensures
        seed == daily_seed_spec(epoch_seconds) ^ difficulty_twist(level),
{
    let base = daily_seed_for_day(epoch_seconds);
    let twist = match level {
        Difficulty::Easy => 0x11_11_11_11_11_11_11u64,
        Difficulty::Medium => 0x22_22_22_22_22_22_22u64,
        Difficulty::Hard => 0x33_33_33_33_33_33_33u64,
    };
    base ^ twist
}

} // verus!

verus! {

/// The normal form of an answer: trimmed, upper-cased, and reduced to its
/// ASCII letters and digits.
pub open spec fn normalise_spec(value: Seq<char>) -> Seq<char> {
    str_uppercase(trim_spec(value)).filter(ascii_alphanumeric_pred())
}

/// `is_ascii_alphanumeric_spec` as a predicate value.
pub open spec fn ascii_alphanumeric_pred() -> spec_fn(char) -> bool {
    |c: char| is_ascii_alphanumeric_spec(c)
}

/// Whether `c` is an ASCII upper-case letter or digit.
pub open spec fn is_upper_alnum(c: char) -> bool {
    ('A' <= c && c <= 'Z') || ('0' <= c && c <= '9')
}

/// A sequence whose elements all pass `pred` is its own filter.
proof fn lemma_filter_keeps_all(s: Seq<char>, pred: spec_fn(char) -> bool)
    requires
        forall|i: int| 0 <= i < s.len() ==> pred(#[trigger] s[i]),
    ensures
        s.filter(pred) == s,
    decreases s.len(),
{
    reveal(Seq::filter);
    if s.len() > 0 {
        lemma_filter_keeps_all(s.drop_last(), pred);
        assert(pred(s[s.len() - 1]));
        assert(s.drop_last().push(s.last()) =~= s);
    }
}

/// The ASCII letters and digits of an upper-cased text, in order; where the
/// text holds no ASCII lower-case letter, they are all upper-case letters and
/// digits.
pub fn keep_ascii_alphanumeric(upper: &str) -> (r: String)
    ensures
        r@ == upper@.filter(ascii_alphanumeric_pred()),
        (forall|i: int| 0 <= i < upper@.len() ==> !is_ascii_lower(#[trigger] upper@[i]))
            ==> forall|i: int| 0 <= i < r@.len() ==> is_upper_alnum(#[trigger] r@[i]),
{
    let upper_chars = chars_of(upper);
    let mut out = String::new();
    let mut i: usize = 0;
    while i < upper_chars.len()
        invariant
            i <= upper_chars.len(),
            upper_chars@ == upper@,
            out@ == upper_chars@.take(i as int).filter(ascii_alphanumeric_pred()),
        decreases upper_chars.len() - i,
    {
        let c = upper_chars[i];
        proof {
            upper_chars@.take(i as int).lemma_filter_push(c, ascii_alphanumeric_pred());
            assert(upper_chars@.take(i + 1) =~= upper_chars@.take(i as int).push(c));
        }
        if is_ascii_alphanumeric(c) {
            push_char(&mut out, c);
        }
        i += 1;
    }
    assert(upper_chars@.take(i as int) =~= upper_chars@);
    proof {
        let f = upper@.filter(ascii_alphanumeric_pred());
        upper@.filter_lemma(ascii_alphanumeric_pred());
        if forall|i: int| 0 <= i < upper@.len() ==> !is_ascii_lower(#[trigger] upper@[i]) {
            assert forall|k: int| 0 <= k < f.len() implies is_upper_alnum(#[trigger] f[k]) by {
                assert(f.contains(f[k]));
                upper@.lemma_filter_contains_rev(ascii_alphanumeric_pred(), f[k]);
                let j = choose|j: int| 0 <= j < upper@.len() && upper@[j] == f[k];
                assert(!is_ascii_lower(upper@[j]));
                assert(ascii_alphanumeric_pred()(f[k]));
            }
        }
    }
    out
}

/// Normalises a string by trimming whitespace, converting to uppercase and
/// removing non-alphanumeric characters. What comes out is made of ASCII
/// upper-case letters and digits only.
pub fn normalise_answer(value: &str) -> (r: String)
    ensures
        r@ == normalise_spec(value@),
        forall|i: int| 0 <= i < r@.len() ==> is_upper_alnum(#[trigger] r@[i]),
        uppercase_facts(trim_spec(value@), str_uppercase(trim_spec(value@))),
{
    let chars = chars_of(value);
    let (start, end) = trim_bounds(&chars, 0, chars.len());
    assert(chars@.subrange(0, chars@.len() as int) =~= chars@);
    let trimmed = string_from_range(&chars, start, end);
    let upper = to_uppercase(trimmed.as_str());
    keep_ascii_alphanumeric(upper.as_str())
}

/// Normalising is idempotent: a normalised answer, made of ASCII upper-case
/// letters and digits, normalises to itself wherever upper-casing keeps to
/// what std documents of it (`uppercase_facts`, which `normalise_answer`
/// states of the text it upper-cases).
pub proof fn lemma_normalise_fixed(n: Seq<char>)
    requires
        forall|i: int| 0 <= i < n.len() ==> is_upper_alnum(#[trigger] n[i]),
    ensures
        uppercase_facts(n, str_uppercase(n)) ==> normalise_spec(n) == n,
{
    if n.len() > 0 {
        assert(is_upper_alnum(n[0]) && is_upper_alnum(n.last()));
    }
    assert(trim_end_spec(n) == n);
    assert(trim_start_spec(n) == n);
    assert(trim_spec(n) == n);
    if uppercase_facts(n, str_uppercase(n)) {
        assert(all_ascii(n)) by {
            assert forall|i: int| 0 <= i < n.len() implies (#[trigger] n[i] as u32) < 128 by {
                assert(is_upper_alnum(n[i]));
            }
        }
        assert(n.map_values(|c: char| ascii_upper(c)) =~= n) by {
            assert forall|i: int| 0 <= i < n.len() implies n.map_values(|c: char| ascii_upper(c))[i]
                == n[i] by {
                assert(is_upper_alnum(n[i]));
            }
        }
        assert forall|i: int| 0 <= i < n.len() implies ascii_alphanumeric_pred()(#[trigger] n[i]) by {
            assert(is_upper_alnum(n[i]));
        }
        lemma_filter_keeps_all(n, ascii_alphanumeric_pred());
    }
}

} // verus!

verus! {

broadcast use vstd::seq_lib::group_to_multiset_ensures;

/// The standard generator of `rand`.
#[verifier::external_type_specification]
#[verifier::external_body]
pub struct ExStdRng(rand::rngs::StdRng);

/// Calls `StdRng::seed_from_u64`: a generator started from `seed`. The
/// generator is documented as not portable across platforms and versions,
/// so nothing is stated of its state.
#[verifier::external_body]
fn seeded_generator(seed: u64) -> rand::rngs::StdRng {
    <rand::rngs::StdRng as rand::SeedableRng>::seed_from_u64(seed)
}

/// Calls `SliceRandom::shuffle`: the items come out as a permutation of
/// themselves. Which permutation is drawn from the generator and is left
/// unsaid.
#[verifier::external_body]
fn shuffle_items<T>(items: &mut [T], rng: &mut rand::rngs::StdRng)
    ensures
        final(items)@.len() == old(items)@.len(),
        final(items)@.to_multiset() == old(items)@.to_multiset(),
{
    rand::seq::SliceRandom::shuffle(items, rng)
}

/// Calls `Rng::next_u64`: the generator's next output, of which nothing is
/// stated.
#[verifier::external_body]
fn next_output(rng: &mut rand::rngs::StdRng) -> u64 {
    rand::Rng::next_u64(rng)
}

/// Shuffles a slice in place using the provided RNG state. The items come
/// out as a permutation of themselves and the state takes the generator's
/// next output; which permutation and which output depend on `rand`'s
/// standard generator, documented as not portable, and are left unsaid.
pub fn shuffle_slice<T>(items: &mut [T], state: &mut u64)
    ensures
        final(items)@.len() == old(items)@.len(),
        final(items)@.to_multiset() == old(items)@.to_multiset(),
        old(items)@.len() < 2 ==> final(items)@ == old(items)@ && *final(state) == *old(state),
{
    if items.len() < 2 {
        return;
    }
    let mut rng = seeded_generator(*state);
    shuffle_items(items, &mut rng);
    *state = next_output(&mut rng);
}

/// Whether every element of `s` equals its first one.
pub open spec fn all_same(s: Seq<char>) -> bool {
    forall|i: int| 0 <= i < s.len() ==> #[trigger] s[i] == s[0]
}

/// Whether two character vectors hold the same characters in the same order.
fn same_chars(a: &Vec<char>, b: &Vec<char>) -> (eq: bool)
    ensures
        eq == (a@ == b@),
{
    if a.len() != b.len() {
        return false;
    }
    let mut i: usize = 0;
    while i < a.len()
        invariant
            a.len() == b.len(),
            i <= a.len(),
            forall|j: int| 0 <= j < i ==> a@[j] == b@[j],
        decreases a.len() - i,
    {
        if a[i] != b[i] {
            return false;
        }
        i += 1;
    }
    assert(a@ =~= b@);
    true
}

proof fn lemma_rotation_fixed_prefix(s: Seq<char>, i: int)
    requires
        0 <= i < s.len(),
        s.drop_first().push(s[0]) == s,
    ensures
        s[i] == s[0],
    decreases i,
{
    if i > 0 {
        lemma_rotation_fixed_prefix(s, i - 1);
        assert(s.drop_first().push(s[0])[i - 1] == s[i]);
    }
}

proof fn lemma_rotation_fixed_means_all_same(s: Seq<char>)
    requires
        s.len() > 0,
        s.drop_first().push(s[0]) == s,
    ensures
        all_same(s),
{
    assert forall|i: int| 0 <= i < s.len() implies #[trigger] s[i] == s[0] by {
        lemma_rotation_fixed_prefix(s, i);
    }
}

proof fn lemma_rotation_multiset(s: Seq<char>)
    requires
        s.len() > 0,
    ensures
        s.drop_first().push(s[0]).to_multiset() == s.to_multiset(),
{
    assert(s.remove(0) =~= s.drop_first());
    assert(s.to_multiset().count(s[0]) > 0) by {
        assert(s.contains(s[0]));
    }
    assert(s.to_multiset().remove(s[0]).insert(s[0]) =~= s.to_multiset());
}

/// A rearrangement of a word whose characters are all the same is that word.
proof fn lemma_same_letters_fixed(r: Seq<char>, w: Seq<char>)
    requires
        all_same(w),
        r.len() == w.len(),
        r.to_multiset() == w.to_multiset(),
    ensures
        r == w,
{
    assert forall|i: int| 0 <= i < r.len() implies r[i] == w[i] by {
        assert(r.contains(r[i]));
        assert(r.to_multiset().count(r[i]) > 0);
        assert(w.contains(r[i]));
        let j = choose|j: int| 0 <= j < w.len() && w[j] == r[i];
        assert(w[j] == w[0] && w[i] == w[0]);
    }
    assert(r =~= w);
}

/// Scrambles a word by shuffling its characters. The result differs from the
/// original whenever the word has two different characters; a word of one
/// repeated character comes back unchanged.
pub fn scramble_word(word: &str, state: &mut u64) -> (r: String)
    ensures
        r@.len() == word@.len(),
        r@.to_multiset() == word@.to_multiset(),
        word@.len() < 2 ==> r@ == word@ && *final(state) == *old(state),
        !all_same(word@) ==> r@ != word@,
        all_same(word@) ==> r@ == word@,
{
    let mut chars = chars_of(word);
    if chars.len() < 2 {
        return string_from_chars(&chars);
    }
    let original = chars_of(word);
    let mut can_change = false;
    let mut k: usize = 1;
    while k < chars.len()
        invariant
            chars@ == word@,
            1 <= k <= chars.len(),
            can_change == exists|j: int| 0 <= j < k && #[trigger] chars@[j] != chars@[0],
        decreases chars.len() - k,
    {
        if chars[k] != chars[0] {
            can_change = true;
        }
        k += 1;
    }
    assert(can_change == !all_same(word@));
    let mut round: usize = 0;
    while round < 8
        invariant
            original@ == word@,
            chars@.len() == word@.len(),
            chars@.to_multiset() == word@.to_multiset(),
            can_change == !all_same(word@),
        decreases 8 - round,
    {
        shuffle_slice(chars.as_mut_slice(), state);
        if !can_change || !same_chars(&chars, &original) {
            break;
        }
        round += 1;
    }
    if can_change && same_chars(&chars, &original) {
        let first = chars.remove(0);
        chars.push(first);
        proof {
            lemma_rotation_multiset(word@);
            if chars@ == word@ {
                lemma_rotation_fixed_means_all_same(word@);
            }
        }
    }
    proof {
        if all_same(word@) {
            lemma_same_letters_fixed(chars@, word@);
        }
    }
    string_from_chars(&chars)
}

} // verus!

verus! {

/// A reading of the system clock.
#[verifier::external_type_specification]
#[verifier::external_body]
pub struct ExSystemTime(std::time::SystemTime);

/// Calls `SystemTime::now`: the clock is read, so nothing is stated of the
/// value.
#[verifier::external_body]
fn clock_now() -> std::time::SystemTime {
    std::time::SystemTime::now()
}

/// Calls `SystemTime::duration_since` with `UNIX_EPOCH`: the time elapsed
/// since the epoch, or `None` where the reading lies before it. The reading
/// is opaque, so nothing is stated of the result.
#[verifier::external_body]
fn since_epoch(reading: std::time::SystemTime) -> Option<std::time::Duration> {
    reading.duration_since(std::time::UNIX_EPOCH).ok()
}

/// Calls `Duration::as_secs`. The duration is opaque, so nothing is stated
/// of the result.
#[verifier::external_body]
fn whole_seconds(elapsed: &std::time::Duration) -> u64 {
    elapsed.as_secs()
}

/// Calls `Duration::as_nanos`. The duration is opaque, so nothing is stated
/// of the result.
#[verifier::external_body]
fn whole_nanos(elapsed: &std::time::Duration) -> u128 {
    elapsed.as_nanos()
}

/// Whole seconds since the Unix epoch by the system clock, or `None` where
/// the clock stands before the epoch. The clock is read, so any value may
/// come.
fn epoch_seconds() -> Option<u64> {
    match since_epoch(clock_now()) {
        Some(elapsed) => Some(whole_seconds(&elapsed)),
        None => None,
    }
}

/// Nanoseconds since the Unix epoch by the system clock, or `None` where the
/// clock stands before the epoch. The clock is read, so any value may come.
fn epoch_nanos() -> Option<u128> {
    match since_epoch(clock_now()) {
        Some(elapsed) => Some(whole_nanos(&elapsed)),
        None => None,
    }
}

/// The epoch seconds the clock reading stands for: zero when the clock stands
/// before the epoch.
pub open spec fn seconds_or_zero(reading: Option<u64>) -> u64 {
    match reading {
        Some(secs) => secs,
        None => 0,
    }
}

/// The seed that a clock reading in nanoseconds gives.
pub open spec fn seed_from_nanos_spec(nanos: Option<u128>) -> u64 {
    let n: u64 = match nanos {
        Some(n) => if n <= u64::MAX as u128 { n as u64 } else { u64::MAX },
        None => 0,
    };
    if n == 0 { 0x9E37_79B9_7F4A_7C15u64 } else { n }
}

/// Whole seconds since the Unix epoch by the system clock, or zero when the
/// clock stands before the epoch. The clock is read, so any value may come.
pub fn current_epoch_seconds() -> u64 {
    let reading = epoch_seconds();
    match reading {
        Some(secs) => secs,
        None => 0,
    }
}

/// The daily seed of today, by the system clock.
pub fn daily_seed() -> (seed: u64)
    ensures
        exists|reading: Option<u64>| seed == daily_seed_spec(#[trigger] seconds_or_zero(reading)),
{
    let reading = epoch_seconds();
    let secs = match reading {
        Some(secs) => secs,
        None => 0,
    };
    let seed = daily_seed_for_day(secs);
    assert(seed == daily_seed_spec(seconds_or_zero(reading)));
    seed
}

/// Turns a clock reading in nanoseconds into a generator seed: the reading
/// saturated to 64 bits, with a fixed odd constant standing in for zero.
pub fn seed_from_nanos(nanos: Option<u128>) -> (seed: u64)
    ensures
        seed == seed_from_nanos_spec(nanos),
        seed != 0,
{
    let n: u64 = match nanos {
        Some(n) => if n <= u64::MAX as u128 { n as u64 } else { u64::MAX },
        None => 0,
    };
    if n == 0 { 0x9E37_79B9_7F4A_7C15u64 } else { n }
}

/// A generator seed from the system clock.
pub fn seed_from_time() -> (seed: u64)
    ensures
        seed != 0,
        exists|nanos: Option<u128>| seed == #[trigger] seed_from_nanos_spec(nanos),
{
    let nanos = epoch_nanos();
    seed_from_nanos(nanos)
}

/// Two moments of the same day give the same daily seed.
pub proof fn lemma_daily_seed_same_day(a: u64, b: u64)
    requires
        a / 86_400 == b / 86_400,
    ensures
        daily_seed_spec(a) == daily_seed_spec(b),
{
}

/// Moments of two different days give different daily seeds.
pub proof fn lemma_daily_seed_distinct_days(a: u64, b: u64)
    requires
        a / 86_400 != b / 86_400,
    ensures
        daily_seed_spec(a) != daily_seed_spec(b),
{
    let x: u64 = a / 86_400;
    let y: u64 = b / 86_400;
    assert(x ^ 0x00C0_FFEE_1234u64 != y ^ 0x00C0_FFEE_1234u64) by (bit_vector)
        requires
            x != y,
    ;
}

/// On one day, the three difficulties get three different seeds.
pub proof fn lemma_difficulty_seeds_distinct(l1: Difficulty, l2: Difficulty, epoch_seconds: u64)
    requires
        l1 != l2,
    ensures
        daily_seed_spec(epoch_seconds) ^ difficulty_twist(l1) != daily_seed_spec(epoch_seconds)
            ^ difficulty_twist(l2),
{
    let b = daily_seed_spec(epoch_seconds);
    let t1 = difficulty_twist(l1);
    let t2 = difficulty_twist(l2);
    assert(t1 != t2);
    assert(b ^ t1 != b ^ t2) by (bit_vector)
        requires
            t1 != t2,
    ;
}

} // verus!

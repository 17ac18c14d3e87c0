//! Unique widget names: `button1`, `button2`, `label1`, ...
use vstd::prelude::*;

verus! {

/// What `str::to_lowercase` returns for a text.
pub uninterp spec fn lower_of(s: Seq<char>) -> Seq<char>;

/// Relies on str::to_lowercase: the lower-case form of a text, which depends
/// on its characters alone.
#[verifier::external_body]
fn lowercase(s: &str) -> (r: String)
    ensures
        r@ == lower_of(s@),
{
    s.to_lowercase()
}

/// Where the last segment of a path starts: one past its last `:`, or 0.
pub open spec fn segment_start(s: Seq<char>) -> int
    decreases s.len(),
{
    if s.len() == 0 {
        0
    } else if s.last() == ':' {
        s.len() as int
    } else {
        segment_start(s.drop_last())
    }
}

/// The last segment of a type path: `Button` for `gtk::Button`.
pub open spec fn short_name(s: Seq<char>) -> Seq<char> {
    s.subrange(segment_start(s), s.len() as int)
}

/// The key that a widget type is counted under: its last segment, lower-cased.
pub open spec fn name_key(path: Seq<char>) -> Seq<char> {
    lower_of(short_name(path))
}

/// The digit for a number below ten.
pub open spec fn digit_char(d: nat) -> char {
    if d == 0 { '0' }
    else if d == 1 { '1' }
    else if d == 2 { '2' }
    else if d == 3 { '3' }
    else if d == 4 { '4' }
    else if d == 5 { '5' }
    else if d == 6 { '6' }
    else if d == 7 { '7' }
    else if d == 8 { '8' }
    else { '9' }
}

/// The decimal digits of a number, without leading zeros.
pub open spec fn decimal(n: nat) -> Seq<char>
    decreases n,
{
    if n < 10 {
        seq![digit_char(n)]
    } else {
        decimal(n / 10).push(digit_char(n % 10))
    }
}

/// How many names were minted under a key.
pub open spec fn count_of(counts: Map<Seq<char>, u32>, key: Seq<char>) -> nat {
    if counts.contains_key(key) {
        counts[key] as nat
    } else {
        0
    }
}

/// Every counter can still grow by `n`.
pub open spec fn has_room(counts: Map<Seq<char>, u32>, n: nat) -> bool {
    forall|k: Seq<char>| #[trigger] count_of(counts, k) + n <= u32::MAX
}

/// The next name minted under a key: the key followed by its new count.
pub open spec fn next_name(counts: Map<Seq<char>, u32>, key: Seq<char>) -> Seq<char> {
    key + decimal(count_of(counts, key) + 1)
}

/// The counters after one more name is minted under a key.
pub open spec fn bumped(counts: Map<Seq<char>, u32>, key: Seq<char>) -> Map<Seq<char>, u32> {
    counts.insert(key, (count_of(counts, key) + 1) as u32)
}

proof fn lemma_decimal_nonempty(n: nat)
    ensures
        decimal(n).len() >= 1,
    decreases n,
{
    if n >= 10 {
        lemma_decimal_nonempty(n / 10);
    }
}

proof fn lemma_digit_injective(d: nat, e: nat)
    requires
        d < 10,
        e < 10,
        digit_char(d) == digit_char(e),
    ensures
        d == e,
{
}

/// Different numbers have different decimal forms.
pub proof fn lemma_decimal_injective(n: nat, m: nat)
    requires
        decimal(n) == decimal(m),
    ensures
        n == m,
    decreases n,
{
    if n < 10 && m < 10 {
        assert(decimal(n) == seq![digit_char(n)]);
        assert(decimal(m) == seq![digit_char(m)]);
        assert(decimal(n)[0] == digit_char(n));
        assert(decimal(m)[0] == digit_char(m));
        lemma_digit_injective(n, m);
    } else if n < 10 {
        lemma_decimal_nonempty(m / 10);
        assert(decimal(m).len() >= 2);
    } else if m < 10 {
        lemma_decimal_nonempty(n / 10);
        assert(decimal(n).len() >= 2);
    } else {
        assert(decimal(n) == decimal(n / 10).push(digit_char(n % 10)));
        assert(decimal(m) == decimal(m / 10).push(digit_char(m % 10)));
        assert(decimal(n).last() == digit_char(n % 10));
        assert(decimal(m).last() == digit_char(m % 10));
        lemma_digit_injective(n % 10, m % 10);
        assert(decimal(n).drop_last() =~= decimal(n / 10));
        assert(decimal(m).drop_last() =~= decimal(m / 10));
        lemma_decimal_injective(n / 10, m / 10);
        assert(n == 10 * (n / 10) + n % 10) by (nonlinear_arith);
        assert(m == 10 * (m / 10) + m % 10) by (nonlinear_arith);
    }
}

/// Registries whose counters for a key differ mint different names under
/// that key: as every mint raises the counter, a key's names never repeat.
pub proof fn lemma_names_under_key_distinct(a: Map<Seq<char>, u32>, b: Map<Seq<char>, u32>, key: Seq<char>)
    requires
        count_of(a, key) != count_of(b, key),
    ensures
        next_name(a, key) != next_name(b, key),
{
    let x = next_name(a, key);
    let y = next_name(b, key);
    if x == y {
        assert(x.subrange(key.len() as int, x.len() as int) =~= decimal(count_of(a, key) + 1));
        assert(y.subrange(key.len() as int, y.len() as int) =~= decimal(count_of(b, key) + 1));
        lemma_decimal_injective(count_of(a, key) + 1, count_of(b, key) + 1);
    }
}

fn digit_str(d: u32) -> (r: &'static str)
    requires
        d < 10,
    ensures
        r@ == seq![digit_char(d as nat)],
{
    proof {
        reveal_strlit("0");
        reveal_strlit("1");
        reveal_strlit("2");
        reveal_strlit("3");
        reveal_strlit("4");
        reveal_strlit("5");
        reveal_strlit("6");
        reveal_strlit("7");
        reveal_strlit("8");
        reveal_strlit("9");
    }
    if d == 0 { "0" }
    else if d == 1 { "1" }
    else if d == 2 { "2" }
    else if d == 3 { "3" }
    else if d == 4 { "4" }
    else if d == 5 { "5" }
    else if d == 6 { "6" }
    else if d == 7 { "7" }
    else if d == 8 { "8" }
    else { "9" }
}

/// The decimal form of a number.
pub fn decimal_string(n: u32) -> (r: String)
    ensures
        r@ == decimal(n as nat),
    decreases n,
{
    if n < 10 {
        String::from_str(digit_str(n))
    } else {
        let mut s = decimal_string(n / 10);
        s.append(digit_str(n % 10));
        s
    }
}

/// The last segment of a type path: what follows its last `:`, or the whole
/// path where it holds none.
pub fn last_segment(s: &str) -> (r: &str)
    ensures
        r@ == short_name(s@),
{
    let len = s.unicode_len();
    let mut start: usize = 0;
    let mut i: usize = 0;
    while i < len
        invariant
            len == s@.len(),
            i <= len,
            start as int == segment_start(s@.subrange(0, i as int)),
            start <= i,
        decreases len - i,
    {
        assert(s@.subrange(0, i as int + 1).drop_last() =~= s@.subrange(0, i as int));
        if s.get_char(i) == ':' {
            start = i + 1;
        }
        i = i + 1;
    }
    assert(s@.subrange(0, len as int) =~= s@);
    s.substring_char(start, len)
}

/// The counters of the names minted so far, one per key.
pub struct NameRegistry {
    entries: Vec<(String, u32)>,
    counts: Ghost<Map<Seq<char>, u32>>,
}

impl View for NameRegistry {
    type V = Map<Seq<char>, u32>;

    closed spec fn view(&self) -> Map<Seq<char>, u32> {
        self.counts@
    }
}

impl NameRegistry {
    /// Each key has one entry, and the entries hold exactly the counters.
    pub closed spec fn wf(&self) -> bool {
        &&& forall|i: int, j: int|
            0 <= i < j < self.entries@.len() ==> #[trigger] self.entries@[i].0@ != #[trigger] self.entries@[j].0@
        &&& forall|i: int|
            #![trigger self.entries@[i]]
            0 <= i < self.entries@.len() ==> self.counts@.contains_key(self.entries@[i].0@)
                && self.counts@[self.entries@[i].0@] == self.entries@[i].1
        &&& forall|k: Seq<char>|
            #[trigger] self.counts@.contains_key(k) ==> exists|i: int|
                0 <= i < self.entries@.len() && self.entries@[i].0@ == k
    }

    /// A registry where no name has been minted yet.
    pub fn new() -> (r: NameRegistry)
        ensures
            r.wf(),
            r@ == Map::<Seq<char>, u32>::empty(),
    {
        NameRegistry { entries: Vec::new(), counts: Ghost(Map::empty()) }
    }

    /// How much every counter can still grow: the most names that can be
    /// minted before one of the counters would pass `u32::MAX`.
    pub fn room(&self) -> (r: u32)
        requires
            self.wf(),
        ensures
            has_room(self@, r as nat),
            r < u32::MAX ==> !has_room(self@, r as nat + 1),
    {
        let mut largest: u32 = 0;
        let mut at: usize = 0;
        let mut i: usize = 0;
        while i < self.entries.len()
            invariant
                self.wf(),
                i <= self.entries@.len(),
                at < self.entries@.len() || largest == 0,
                largest > 0 ==> self.entries@[at as int].1 == largest,
                forall|j: int| 0 <= j < i ==> self.entries@[j].1 <= largest,
            decreases self.entries@.len() - i,
        {
            if self.entries[i].1 > largest {
                largest = self.entries[i].1;
                at = i;
            }
            i = i + 1;
        }
        assert forall|k: Seq<char>| #[trigger] count_of(self@, k) + (u32::MAX - largest) <= u32::MAX by {
            if self.counts@.contains_key(k) {
                let j = choose|j: int| 0 <= j < self.entries@.len() && self.entries@[j].0@ == k;
                assert(self.counts@[self.entries@[j].0@] == self.entries@[j].1);
            }
        }
        if largest > 0 {
            let ghost k = self.entries@[at as int].0@;
            assert(count_of(self@, k) == largest);
        }
        u32::MAX - largest
    }

    /// Mints the next name under `key`: `key` followed by how many names have
    /// been minted under it, this one included.
    pub fn mint(&mut self, key: &str) -> (r: String)
        requires
            old(self).wf(),
            count_of(old(self)@, key@) < u32::MAX,
        ensures
            final(self).wf(),
            r@ == next_name(old(self)@, key@),
            final(self)@ == bumped(old(self)@, key@),
    {
        let k = String::from_str(key);
        let len = self.entries.len();
        let mut i: usize = 0;
        while i < len
            invariant
                len == self.entries@.len(),
                i <= len,
                k@ == key@,
                self.wf(),
                *self == *old(self),
                count_of(self@, key@) < u32::MAX,
                forall|j: int| 0 <= j < i ==> self.entries@[j].0@ != key@,
            decreases len - i,
        {
            if self.entries[i].0 == k {
                assert(self.entries@[i as int].0@ == key@);
                assert(count_of(self.counts@, key@) == self.entries@[i as int].1);
                let n = self.entries[i].1 + 1;
                let ghost old_entries = self.entries@;
                let ghost old_counts = self.counts@;
                self.entries.set(i, (k, n));
                self.counts = Ghost(self.counts@.insert(key@, n));
                assert forall|j: int| 0 <= j < self.entries@.len() implies
                    self.entries@[j].0@ == old_entries[j].0@ by {}
                assert forall|j: int| #![trigger self.entries@[j]]
                    0 <= j < self.entries@.len() implies self.counts@.contains_key(self.entries@[j].0@)
                        && self.counts@[self.entries@[j].0@] == self.entries@[j].1 by {
                    if j != i {
                        assert(old_entries[j].0@ != old_entries[i as int].0@);
                    }
                }
                assert forall|q: Seq<char>| #[trigger] self.counts@.contains_key(q) implies exists|j: int|
                    0 <= j < self.entries@.len() && self.entries@[j].0@ == q by {
                    if q != key@ {
                        assert(old_counts.contains_key(q));
                        let j = choose|j: int| 0 <= j < old_entries.len() && old_entries[j].0@ == q;
                        assert(self.entries@[j].0@ == q);
                    } else {
                        assert(self.entries@[i as int].0@ == q);
                    }
                }
                let mut r = String::from_str(key);
                let digits = decimal_string(n);
                r.append(digits.as_str());
                return r;
            }
            i = i + 1;
        }
        assert(!self.counts@.contains_key(key@));
        let ghost old_entries = self.entries@;
        let ghost old_counts = self.counts@;
        self.entries.push((k, 1));
        self.counts = Ghost(self.counts@.insert(key@, 1));
        assert forall|j: int| #![trigger self.entries@[j]]
            0 <= j < self.entries@.len() implies self.counts@.contains_key(self.entries@[j].0@)
                && self.counts@[self.entries@[j].0@] == self.entries@[j].1 by {
            if j < len {
                assert(self.entries@[j] == old_entries[j]);
            }
        }
        assert forall|q: Seq<char>| #[trigger] self.counts@.contains_key(q) implies exists|j: int|
            0 <= j < self.entries@.len() && self.entries@[j].0@ == q by {
            if q != key@ {
                assert(old_counts.contains_key(q));
                let j = choose|j: int| 0 <= j < old_entries.len() && old_entries[j].0@ == q;
                assert(self.entries@[j] == old_entries[j]);
            } else {
                assert(self.entries@[len as int].0@ == q);
            }
        }
        let mut r = String::from_str(key);
        let digits = decimal_string(1);
        r.append(digits.as_str());
        r
    }
}

/// Mints a unique name for a widget of the given type: the last segment of the
/// type path, lower-cased, followed by its count (`gtk::Button` gives
/// `button1`, then `button2`).
pub fn gen_widget_name(name: &str, registry: &mut NameRegistry) -> (r: String)
    requires
        old(registry).wf(),
        has_room(old(registry)@, 1),
    ensures
        final(registry).wf(),
        r@ == next_name(old(registry)@, name_key(name@)),
        final(registry)@ == bumped(old(registry)@, name_key(name@)),
{
    let key = lowercase(last_segment(name));
    assert(count_of(old(registry)@, key@) + 1 <= u32::MAX);
    registry.mint(key.as_str())
}

} // verus!

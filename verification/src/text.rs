//! Character-level text matching: equality, substring search and the
//! first-occurrence splitting that `str::contains` and `str::split_once` perform.
use vstd::prelude::*;

verus! {

/// `pattern` occurs in `text` starting at character `at`.
pub open spec fn occurs_at(text: Seq<char>, pattern: Seq<char>, at: int) -> bool {
    &&& 0 <= at
    &&& at + pattern.len() <= text.len()
    &&& text.subrange(at, at + pattern.len()) == pattern
}

/// `pattern` occurs somewhere in `text`.
pub open spec fn contains_text(text: Seq<char>, pattern: Seq<char>) -> bool {
    exists|at: int| occurs_at(text, pattern, at)
}

/// The first position at or after `from` where `pattern` occurs in `text`.
pub open spec fn first_occurrence_from(text: Seq<char>, pattern: Seq<char>, from: int) -> Option<
    int,
>
    decreases text.len() + 1 - from,
{
    if from < 0 || from + pattern.len() > text.len() {
        None
    } else if occurs_at(text, pattern, from) {
        Some(from)
    } else {
        first_occurrence_from(text, pattern, from + 1)
    }
}

/// `first_occurrence_from` finds the least occurrence at or after `from`, and
/// finds nothing exactly when there is none.
pub proof fn lemma_first_occurrence(text: Seq<char>, pattern: Seq<char>, from: int)
    requires
        0 <= from,
    ensures
        match first_occurrence_from(text, pattern, from) {
            Some(at) => {
                &&& from <= at
                &&& occurs_at(text, pattern, at)
                &&& forall|k: int| from <= k < at ==> !occurs_at(text, pattern, k)
            },
            None => forall|k: int| from <= k ==> !occurs_at(text, pattern, k),
        },
    decreases text.len() + 1 - from,
{
    if from + pattern.len() > text.len() {
    } else if occurs_at(text, pattern, from) {
    } else {
        lemma_first_occurrence(text, pattern, from + 1);
        assert forall|k: int| from <= k && !(from + 1 <= k) implies !occurs_at(text, pattern, k) by {
            assert(k == from);
        }
    }
}

/// A pattern occurs in a text exactly when a first occurrence from the start exists.
pub proof fn lemma_contains_iff_first_occurrence(text: Seq<char>, pattern: Seq<char>)
    ensures
        contains_text(text, pattern) <==> first_occurrence_from(text, pattern, 0) is Some,
{
    lemma_first_occurrence(text, pattern, 0);
    if let Some(at) = first_occurrence_from(text, pattern, 0) {
        assert(occurs_at(text, pattern, at));
    }
}

/// The characters of a string slice, in order.
pub fn chars_of(text: &str) -> (chars: Vec<char>)
    ensures
        chars@ == text@,
{
    let mut chars: Vec<char> = Vec::new();
    for c in it: text.chars()
        invariant
            chars@ == it.seq().take(it.index() as int),
    {
        chars.push(c);
    }
    chars
}

/// Compares two string slices character by character.
pub fn str_equals(left: &str, right: &str) -> (equal: bool)
    ensures
        equal == (left@ == right@),
{
    let l: Vec<char> = chars_of(left);
    let r: Vec<char> = chars_of(right);
    if l.len() != r.len() {
        return false;
    }
    let mut i: usize = 0;
    while i < l.len()
        invariant
            l@ == left@,
            r@ == right@,
            l.len() == r.len(),
            i <= l.len(),
            forall|k: int| 0 <= k < i ==> l@[k] == r@[k],
        decreases l.len() - i,
    {
        if l[i] != r[i] {
            return false;
        }
        i = i + 1;
    }
    assert(l@ =~= r@);
    true
}

/// `text` begins with `prefix`.
pub fn starts_with_text(text: &Vec<char>, prefix: &Vec<char>) -> (starts: bool)
    ensures
        starts == occurs_at(text@, prefix@, 0),
{
    if prefix.len() > text.len() {
        return false;
    }
    matches_here(text, prefix, 0)
}

/// Whether `pattern` occurs in `text` at position `at`.
fn matches_here(text: &Vec<char>, pattern: &Vec<char>, at: usize) -> (found: bool)
    requires
        at + pattern.len() <= text.len(),
    ensures
        found == occurs_at(text@, pattern@, at as int),
{
    let mut k: usize = 0;
    while k < pattern.len()
        invariant
            at + pattern.len() <= text.len(),
            k <= pattern.len(),
            forall|j: int| 0 <= j < k ==> text@[at + j] == pattern@[j],
        decreases pattern.len() - k,
    {
        if text[at + k] != pattern[k] {
            assert(text@.subrange(at as int, at + pattern.len())[k as int] != pattern@[k as int]);
            return false;
        }
        k = k + 1;
    }
    assert(text@.subrange(at as int, at + pattern.len()) =~= pattern@);
    true
}

/// The first position at or after `from` where `pattern` occurs in `text`.
pub fn find_from(text: &Vec<char>, pattern: &Vec<char>, from: usize) -> (found: Option<usize>)
    ensures
        match found {
            Some(at) => first_occurrence_from(text@, pattern@, from as int) == Some(at as int),
            None => first_occurrence_from(text@, pattern@, from as int) is None,
        },
{
    let mut at: usize = from;
    while at <= text.len() && pattern.len() <= text.len() - at
        invariant
            from <= at,
            first_occurrence_from(text@, pattern@, from as int) == first_occurrence_from(
                text@,
                pattern@,
                at as int,
            ),
        decreases text.len() + 1 - at,
    {
        if matches_here(text, pattern, at) {
            return Some(at);
        }
        if pattern.len() == 0 {
            assert(text@.subrange(at as int, at as int) =~= pattern@);
        }
        at = at + 1;
    }
    None
}

/// A set of texts held without repetition.
pub struct TextSet {
    items: Vec<String>,
}

impl View for TextSet {
    type V = Set<Seq<char>>;

    closed spec fn view(&self) -> Set<Seq<char>> {
        Set::new(|text: Seq<char>| exists|i: int| 0 <= i < self.items@.len() && self.items@[i]@ == text)
    }
}

impl TextSet {
    /// Each text is held once.
    #[verifier::type_invariant]
    spec fn held_once(&self) -> bool {
        forall|i: int, j: int|
            0 <= i < self.items@.len() && 0 <= j < self.items@.len() && i != j
                ==> self.items@[i]@ != self.items@[j]@
    }

    /// The empty set.
    pub fn new() -> (set: TextSet)
        ensures
            set@ == Set::<Seq<char>>::empty(),
    {
        let set = TextSet { items: Vec::new() };
        assert(set@ =~= Set::<Seq<char>>::empty());
        set
    }

    /// Nothing is held.
    pub fn is_empty(&self) -> (empty: bool)
        ensures
            empty == (self@ == Set::<Seq<char>>::empty()),
    {
        if self.items.len() == 0 {
            assert(self@ =~= Set::<Seq<char>>::empty());
            true
        } else {
            assert(self@.contains(self.items@[0]@));
            false
        }
    }

    /// Where `text` is held, if it is.
    fn position(&self, text: &String) -> (at: Option<usize>)
        ensures
            match at {
                Some(i) => i < self.items@.len() && self.items@[i as int]@ == text@,
                None => !self@.contains(text@),
            },
    {
        let mut i: usize = 0;
        while i < self.items.len()
            invariant
                i <= self.items@.len(),
                forall|k: int| 0 <= k < i ==> self.items@[k]@ != text@,
            decreases self.items.len() - i,
        {
            if self.items[i] == *text {
                return Some(i);
            }
            i = i + 1;
        }
        None
    }

    /// Whether `text` is held.
    pub fn contains(&self, text: &String) -> (held: bool)
        ensures
            held == self@.contains(text@),
    {
        match self.position(text) {
            Some(i) => {
                assert(self@.contains(self.items@[i as int]@));
                true
            },
            None => false,
        }
    }

    /// Adds `text`.
    pub fn insert(&mut self, text: String)
        ensures
            final(self)@ == old(self)@.insert(text@),
    {
        proof {
            use_type_invariant(&*self);
        }
        match self.position(&text) {
            Some(_) => {
                assert(self@ =~= old(self)@.insert(text@));
            },
            None => {
                let ghost before = self.items@;
                let mut items: Vec<String> = Vec::new();
                std::mem::swap(&mut items, &mut self.items);
                items.push(text);
                assert forall|i: int, j: int|
                    0 <= i < items@.len() && 0 <= j < items@.len() && i != j implies items@[i]@
                    != items@[j]@ by {
                    if i < before.len() && j < before.len() {
                        assert(items@[i] == before[i] && items@[j] == before[j]);
                    } else if i < before.len() {
                        assert(items@[i] == before[i]);
                        assert(old(self)@.contains(before[i]@));
                    } else {
                        assert(items@[j] == before[j]);
                        assert(old(self)@.contains(before[j]@));
                    }
                }
                self.items = items;
                assert forall|t: Seq<char>| #[trigger] self@.contains(t) == old(self)@.insert(text@).contains(t) by {
                    if old(self)@.contains(t) {
                        let i: int = choose|i: int| 0 <= i < before.len() && before[i]@ == t;
                        assert(self.items@[i] == before[i]);
                    }
                    if t == text@ {
                        assert(self.items@[before.len() as int]@ == t);
                    }
                    if self@.contains(t) {
                        let i: int = choose|i: int| 0 <= i < self.items@.len() && self.items@[i]@ == t;
                        if i < before.len() {
                            assert(self.items@[i] == before[i]);
                        }
                    }
                }
                assert(self@ =~= old(self)@.insert(text@));
            },
        }
    }

    /// Removes `text`.
    pub fn remove(&mut self, text: &String)
        ensures
            final(self)@ == old(self)@.remove(text@),
    {
        proof {
            use_type_invariant(&*self);
        }
        match self.position(text) {
            None => {
                assert(self@ =~= old(self)@.remove(text@));
            },
            Some(at) => {
                let ghost before = self.items@;
                let mut items: Vec<String> = Vec::new();
                std::mem::swap(&mut items, &mut self.items);
                items.remove(at);
                assert forall|i: int, j: int|
                    0 <= i < items@.len() && 0 <= j < items@.len() && i != j implies items@[i]@
                    != items@[j]@ by {
                    let bi: int = if i < at { i } else { i + 1 };
                    let bj: int = if j < at { j } else { j + 1 };
                    assert(items@[i] == before[bi]);
                    assert(items@[j] == before[bj]);
                }
                self.items = items;
                assert forall|t: Seq<char>| #[trigger] self@.contains(t) == old(self)@.remove(text@).contains(t) by {
                    if self@.contains(t) {
                        let i: int = choose|i: int| 0 <= i < self.items@.len() && self.items@[i]@ == t;
                        if i < at {
                            assert(self.items@[i] == before[i]);
                        } else {
                            assert(self.items@[i] == before[i + 1]);
                        }
                    }
                    if old(self)@.contains(t) && t != text@ {
                        let i: int = choose|i: int| 0 <= i < before.len() && before[i]@ == t;
                        if i < at {
                            assert(self.items@[i] == before[i]);
                        } else {
                            assert(i != at);
                            assert(self.items@[i - 1] == before[i]);
                        }
                    }
                }
                assert(self@ =~= old(self)@.remove(text@));
            },
        }
    }

    /// Removes everything.
    pub fn clear(&mut self)
        ensures
            final(self)@ == Set::<Seq<char>>::empty(),
    {
        self.items = Vec::new();
        assert(self@ =~= Set::<Seq<char>>::empty());
    }

    /// The held texts, each once.
    pub fn to_vec(&self) -> (items: Vec<String>)
        ensures
            forall|t: Seq<char>|
                self@.contains(t) <==> exists|i: int| 0 <= i < items@.len() && #[trigger] items@[i]@ == t,
            forall|i: int, j: int|
                0 <= i < items@.len() && 0 <= j < items@.len() && i != j ==> items@[i]@ != items@[j]@,
    {
        proof {
            use_type_invariant(self);
        }
        let items = self.items.clone();
        assert(forall|i: int| 0 <= i < items@.len() ==> items@[i] == self.items@[i]);
        items
    }
}

} // verus!

//! The eligibility filter: which records qualify for tracking.

use vstd::prelude::*;
use crate::age::{age_reading, parse_age};
use crate::record::{Record, RecordView};
use crate::text::{
    chars_of, find_token_end, find_token_start, has_token, is_space, is_token, lemma_token_end,
    lemma_token_start, spells,
};

verus! {

/// The unit of the ages that the filter judges.
pub open spec fn years_unit() -> Seq<char> {
    seq!['y', 'e', 'a', 'r', 's']
}

/// What the filter goes by, as plain values.
pub struct RulesView {
    pub exclusions: Seq<Seq<char>>,
    pub max_age: u8,
}

/// Whether one of the tokens of `category` is an excluded word, letter for
/// letter and case for case.
pub open spec fn category_excluded(category: Seq<char>, exclusions: Seq<Seq<char>>) -> bool {
    exists|j: int| 0 <= j < exclusions.len() && has_token(category, #[trigger] exclusions[j])
}

/// Whether `age` reads as a number of years above `max_age`, however large
/// the number. An age in any other unit, or one that cannot be read, is
/// never excluded.
pub open spec fn age_excluded(age: Seq<char>, max_age: u8) -> bool {
    match age_reading(age) {
        Some((amount, unit)) => unit == years_unit() && amount > max_age,
        None => false,
    }
}

/// Whether the rules let a record with this category and this age pass.
pub open spec fn admits(category: Seq<char>, age: Seq<char>, rules: RulesView) -> bool {
    !category_excluded(category, rules.exclusions) && !age_excluded(age, rules.max_age)
}

/// Whether `record` qualifies for tracking: it has an identifier, and the
/// rules admit its category and its age.
pub open spec fn eligible(record: RecordView, rules: RulesView) -> bool {
    record.id.len() > 0 && admits(record.category, record.age, rules)
}

/// The exclusion list and the age limit that the filter applies.
pub struct Rules {
    exclusions: Vec<Vec<char>>,
    max_age: u8,
}

impl View for Rules {
    type V = RulesView;

    closed spec fn view(&self) -> RulesView {
        RulesView {
            exclusions: Seq::new(self.exclusions@.len(), |i: int| self.exclusions@[i]@),
            max_age: self.max_age,
        }
    }
}

impl Rules {
    /// The rules that exclude the given words and ages above `max_age` years.
    pub fn new(exclusions: &Vec<String>, max_age: u8) -> (rules: Rules)
        ensures
            rules@.exclusions == exclusions.deep_view(),
            rules@.max_age == max_age,
    {
        let mut words: Vec<Vec<char>> = Vec::new();
        let mut i: usize = 0;
        while i < exclusions.len()
            invariant
                i <= exclusions.len(),
                words.len() == i,
                forall|j: int| 0 <= j < i ==> words@[j]@ == exclusions@[j]@,
            decreases exclusions.len() - i,
        {
            words.push(chars_of(exclusions[i].as_str()));
            i = i + 1;
        }
        let rules = Rules { exclusions: words, max_age };
        assert(rules@.exclusions =~= exclusions.deep_view());
        rules
    }

    /// The highest age in years that the rules let pass.
    pub fn max_age(&self) -> (max_age: u8)
        ensures
            max_age == self@.max_age,
    {
        self.max_age
    }

    /// Whether the rules exclude the category label `category`.
    pub fn excludes_category(&self, category: &str) -> (excluded: bool)
        ensures
            excluded == category_excluded(category@, self@.exclusions),
    {
        let s = chars_of(category);
        let ghost words = self@.exclusions;
        let mut from: usize = 0;
        loop
            invariant
                s@ == category@,
                words == self@.exclusions,
                from <= s.len(),
                from == 0 || from == s.len() || is_space(s@[from as int]),
                forall|a: int, b: int, j: int|
                    #![trigger is_token(s@, a, b), words[j]]
                    a < from && is_token(s@, a, b) && 0 <= j < words.len() ==> s@.subrange(a, b)
                        != words[j],
            decreases s.len() - from,
        {
            let start = find_token_start(&s, from);
            proof {
                lemma_token_start(s@, from as int);
            }
            if start == s.len() {
                proof {
                    if category_excluded(category@, self@.exclusions) {
                        let i = choose|i: int|
                            0 <= i < words.len() && has_token(s@, #[trigger] words[i]);
                        let (a, b) = choose|a: int, b: int| #[trigger]
                            is_token(s@, a, b) && s@.subrange(a, b) == words[i];
                        if a >= from {
                            assert(!is_space(s@[a]));
                        }
                    }
                }
                return false;
            }
            let end = find_token_end(&s, start);
            proof {
                lemma_token_end(s@, start as int);
                if start > from {
                    assert(is_space(s@[start - 1]));
                }
                assert(is_token(s@, start as int, end as int));
            }
            let mut j: usize = 0;
            while j < self.exclusions.len()
                invariant
                    s@ == category@,
                    words == self@.exclusions,
                    j <= self.exclusions.len(),
                    start <= end <= s.len(),
                    is_token(s@, start as int, end as int),
                    forall|i: int| 0 <= i < j ==> s@.subrange(start as int, end as int) != words[i],
                decreases self.exclusions.len() - j,
            {
                if spells(&s, start, end, &self.exclusions[j]) {
                    assert(words[j as int] == self.exclusions@[j as int]@);
                    assert(has_token(s@, words[j as int]));
                    return true;
                }
                assert(words[j as int] == self.exclusions@[j as int]@);
                j = j + 1;
            }
            assert forall|a: int, b: int, i: int|
                #![trigger is_token(s@, a, b), words[i]]
                a < end && is_token(s@, a, b) && 0 <= i < words.len() implies s@.subrange(a, b)
                != words[i] by {
                if a >= from {
                    assert(!is_space(s@[a]));
                    if a > start {
                        assert(!is_space(s@[a - 1]));
                    }
                    if b < end {
                        assert(!is_space(s@[b]));
                    }
                    if b > end {
                        assert(!is_space(s@[end as int]));
                    }
                    assert(a == start && b == end);
                }
            }
            from = end;
        }
    }

    /// Whether the rules exclude the age descriptor `age`.
    pub fn excludes_age(&self, age: &str) -> (excluded: bool)
        ensures
            excluded == age_excluded(age@, self@.max_age),
    {
        match parse_age(age) {
            Some(reading) => {
                let unit = chars_of(reading.unit.as_str());
                let years = unit.len() == 5 && unit[0] == 'y' && unit[1] == 'e' && unit[2] == 'a'
                    && unit[3] == 'r' && unit[4] == 's';
                assert(years == (reading.unit@ =~= years_unit()));
                years && reading.quantity > self.max_age as u64
            },
            None => false,
        }
    }

    /// Whether `record` qualifies for tracking under these rules.
    pub fn is_eligible(&self, record: &Record) -> (verdict: bool)
        ensures
            verdict == eligible(record@, self@),
    {
        !record.id().is_blank() && !self.excludes_category(record.category())
            && !self.excludes_age(record.age())
    }
}

} // verus!

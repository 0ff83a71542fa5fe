//! The predicate set: regular expressions tested against each line, a line
//! matching when any of them matches.
use vstd::prelude::*;
use regex::Regex;
use crate::model::lines_of;

verus! {

#[verifier::external_type_specification]
#[verifier::external_body]
pub struct ExRegex(Regex);

/// Whether `regex::Regex::new` accepts `pattern`.
pub uninterp spec fn regex_compiles(pattern: Seq<char>) -> bool;

/// Whether the regex compiled from `pattern` matches somewhere in `line`.
pub uninterp spec fn regex_is_match(pattern: Seq<char>, line: Seq<char>) -> bool;

/// Whether any pattern of `patterns` matches `line`.
pub open spec fn matches_any(patterns: Seq<Seq<char>>, line: Seq<char>) -> bool {
    exists|i: int| 0 <= i < patterns.len() && #[trigger] regex_is_match(patterns[i], line)
}

/// Whether `line` is matched by the first `k` patterns.
pub open spec fn matches_first(patterns: Seq<Seq<char>>, k: int, line: Seq<char>) -> bool {
    exists|i: int| 0 <= i < k && #[trigger] regex_is_match(patterns[i], line)
}

/// For each line of `lines`, whether any pattern matches it.
pub open spec fn match_flags(patterns: Seq<Seq<char>>, lines: Seq<Seq<char>>) -> Seq<bool> {
    Seq::new(lines.len(), |i: int| matches_any(patterns, lines[i]))
}

/// One compiled regular expression with the pattern it was compiled from.
/// Its fields are only ever set together, by `compile`.
pub struct Predicate {
    source: String,
    regex: Regex,
}

impl Predicate {
    /// The pattern the predicate was compiled from.
    pub closed spec fn pattern(&self) -> Seq<char> {
        self.source@
    }

    /// Relies on `regex::Regex::new`: it succeeds exactly on the patterns it
    /// accepts, and the result is kept with its pattern.
    #[verifier::external_body]
    fn compile(source: String) -> (r: Option<Predicate>)
        ensures
            r is Some <==> regex_compiles(source@),
            r matches Some(p) ==> p.pattern() == source@,
    {
        match Regex::new(&source) {
            Ok(regex) => Some(Predicate { source, regex }),
            Err(_) => None,
        }
    }

    /// Relies on `regex::Regex::is_match`, on the regex compiled from
    /// `pattern()`: whether it matches anywhere in `line`.
    #[verifier::external_body]
    fn is_match(&self, line: &str) -> (r: bool)
        ensures
            r == regex_is_match(self.pattern(), line@),
    {
        self.regex.is_match(line)
    }
}

/// An ordered list of compiled regular expressions.
pub struct PredicateSet {
    items: Vec<Predicate>,
}

impl PredicateSet {
    /// The patterns of the set, in order.
    pub closed spec fn patterns(&self) -> Seq<Seq<char>> {
        self.items@.map_values(|p: Predicate| p.pattern())
    }

    /// Compiles every pattern, in order. Fails with the index of the first
    /// pattern that does not compile.
    pub fn new(patterns: &Vec<String>) -> (r: Result<PredicateSet, usize>)
        ensures
            r matches Ok(set) ==> set.patterns() == lines_of(patterns@),
            r is Ok <==> forall|i: int| 0 <= i < patterns.len() ==> #[trigger] regex_compiles(patterns[i]@),
            r matches Err(k) ==> {
                &&& k < patterns.len()
                &&& !regex_compiles(patterns[k as int]@)
                &&& forall|j: int| 0 <= j < k ==> #[trigger] regex_compiles(patterns[j]@)
            },
    {
        let mut items: Vec<Predicate> = Vec::new();
        let mut i: usize = 0;
        while i < patterns.len()
            invariant
                i <= patterns.len(),
                items@.map_values(|p: Predicate| p.pattern()) == lines_of(patterns@.take(i as int)),
                forall|j: int| 0 <= j < i ==> #[trigger] regex_compiles(patterns[j]@),
            decreases patterns.len() - i,
        {
            let source = patterns[i].clone();
            match Predicate::compile(source) {
                Some(p) => {
                    let ghost prev = items@;
                    items.push(p);
                    assert(items@.map_values(|p: Predicate| p.pattern()) =~= prev.map_values(
                        |p: Predicate| p.pattern(),
                    ).push(patterns[i as int]@));
                    assert(patterns@.take(i + 1) =~= patterns@.take(i as int).push(patterns[i as int]));
                    assert(lines_of(patterns@.take(i + 1)) =~= lines_of(patterns@.take(i as int)).push(
                        patterns[i as int]@,
                    ));
                },
                None => {
                    return Err(i);
                },
            }
            i = i + 1;
        }
        assert(patterns@.take(i as int) =~= patterns@);
        Ok(PredicateSet { items })
    }

    /// The number of predicates.
    pub fn len(&self) -> (r: usize)
        ensures
            r as int == self.patterns().len(),
    {
        self.items.len()
    }

    /// Whether any predicate matches `line`; the predicates are tried in
    /// order and the first hit ends the search.
    pub fn is_match_any(&self, line: &str) -> (r: bool)
        ensures
            r == matches_any(self.patterns(), line@),
    {
        let mut i: usize = 0;
        while i < self.items.len()
            invariant
                i <= self.items.len(),
                !matches_first(self.patterns(), i as int, line@),
            decreases self.items.len() - i,
        {
            if self.items[i].is_match(line) {
                assert(regex_is_match(self.patterns()[i as int], line@));
                return true;
            }
            assert(self.patterns()[i as int] == self.items@[i as int].pattern());
            i = i + 1;
        }
        false
    }
}

} // verus!

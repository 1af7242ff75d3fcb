//! The rule store: who watches for which pattern.

use crate::pattern::{check_pattern, compiles, fires, pattern_matches, regex_compile_error};
use crate::text::same_text;
use vstd::prelude::*;
use vstd::string::*;

verus! {

/// A rule as the contracts see it: its owner and the pattern's source text.
pub struct RuleView {
    pub owner: u64,
    pub source: Seq<char>,
}

/// One registered rule: the pattern as its owner wrote it, and the owner.
/// Never changed after it was made. The compiled form of the pattern stays
/// with the pattern engine.
struct Rule {
    source_text: String,
    owner: u64,
}

impl View for Rule {
    type V = RuleView;

    closed spec fn view(&self) -> RuleView {
        RuleView { owner: self.owner, source: self.source_text@ }
    }
}

/// What a successful `add` did.
#[derive(Clone, Copy, Debug, PartialEq, Eq, Structural)]
pub enum Outcome {
    Added,
    AlreadyExists,
}

/// What `remove` did.
#[derive(Clone, Copy, Debug, PartialEq, Eq, Structural)]
pub enum Removal {
    Removed,
    NotFound,
}

/// A pattern that the pattern engine turned down, with the engine's words.
#[derive(Debug)]
pub struct CompileError {
    pub message: String,
}

/// The rule that `owner` has for `pattern`.
pub open spec fn rule_of(owner: u64, pattern: Seq<char>) -> RuleView {
    RuleView { owner, source: pattern }
}

/// What a request of `owner` to add `pattern` comes to: the pattern engine's
/// words where it turns the pattern down, otherwise whether the rule is new.
pub open spec fn add_outcome(rules: Seq<RuleView>, owner: u64, pattern: Seq<char>) -> Result<
    Outcome,
    Seq<char>,
> {
    match regex_compile_error(pattern) {
        Some(error) => Err(error),
        None => if rules.contains(rule_of(owner, pattern)) {
            Ok(Outcome::AlreadyExists)
        } else {
            Ok(Outcome::Added)
        },
    }
}

/// What a request of `owner` to remove `pattern` comes to.
pub open spec fn remove_outcome(rules: Seq<RuleView>, owner: u64, pattern: Seq<char>) -> Removal {
    if rules.contains(rule_of(owner, pattern)) {
        Removal::Removed
    } else {
        Removal::NotFound
    }
}

/// The rules after `owner` asked to add `pattern`.
pub open spec fn after_add(rules: Seq<RuleView>, owner: u64, pattern: Seq<char>) -> Seq<RuleView> {
    if compiles(pattern) && !rules.contains(rule_of(owner, pattern)) {
        rules.push(rule_of(owner, pattern))
    } else {
        rules
    }
}

/// The rules after `owner` asked to remove `pattern`.
pub open spec fn after_remove(rules: Seq<RuleView>, owner: u64, pattern: Seq<char>) -> Seq<
    RuleView,
> {
    if rules.contains(rule_of(owner, pattern)) {
        rules.remove(rules.index_of(rule_of(owner, pattern)))
    } else {
        rules
    }
}

/// The source texts of `owner`'s rules, oldest first.
pub open spec fn sources_of(rules: Seq<RuleView>, owner: u64) -> Seq<Seq<char>> {
    rules.filter(|r: RuleView| r.owner == owner).map_values(|r: RuleView| r.source)
}

/// Whether one of `owner`'s rules fires on `text`.
pub open spec fn watches(rules: Seq<RuleView>, owner: u64, text: Seq<char>) -> bool {
    exists|i: int|
        0 <= i < rules.len() && (#[trigger] rules[i]).owner == owner && fires(
            rules[i].source,
            text,
        )
}

/// The owners, other than `excluding`, of whom a rule fires on `text`: each
/// once, in the order of their first such rule.
pub open spec fn matched_owners(rules: Seq<RuleView>, text: Seq<char>, excluding: u64) -> Seq<u64>
    decreases rules.len(),
{
    if rules.len() == 0 {
        Seq::empty()
    } else {
        let before = matched_owners(rules.drop_last(), text, excluding);
        let rule = rules.last();
        if rule.owner != excluding && fires(rule.source, text) && !before.contains(rule.owner) {
            before.push(rule.owner)
        } else {
            before
        }
    }
}

/// All registered rules, in the order in which they were added. No two of
/// them share both owner and source text.
pub struct RuleStore {
    rules: Vec<Rule>,
}

impl View for RuleStore {
    type V = Seq<RuleView>;

    closed spec fn view(&self) -> Seq<RuleView> {
        self.rules@.map_values(|r: Rule| r@)
    }
}

impl RuleStore {
    /// No two rules share both owner and source text.
    pub open spec fn wf(self) -> bool {
        self@.no_duplicates()
    }

    /// An empty store.
    pub fn new() -> (r: RuleStore)
        ensures
            r@ == Seq::<RuleView>::empty(),
            r.wf(),
    {
        let r = RuleStore { rules: Vec::new() };
        r
    }

    /// The number of rules, of all owners together.
    pub fn len(&self) -> (n: usize)
        ensures
            n == self@.len(),
    {
        self.rules.len()
    }

    /// Where `owner`'s rule for `pattern` stands, if there is one.
    fn position(&self, owner: u64, pattern: &str) -> (r: Option<usize>)
        requires
            self.wf(),
        ensures
            r is Some <==> self@.contains(rule_of(owner, pattern@)),
            r matches Some(i) ==> i < self@.len() && self@[i as int] == rule_of(owner, pattern@) && i
                == self@.index_of(rule_of(owner, pattern@)),
    {
        let mut i: usize = 0;
        while i < self.rules.len()
            invariant
                i <= self.rules.len(),
                self.wf(),
                forall|j: int| 0 <= j < i ==> self@[j] != rule_of(owner, pattern@),
            decreases self.rules.len() - i,
        {
            let rule = &self.rules[i];
            assert(self@[i as int] == rule@);
            if rule.owner == owner && same_text(rule.source_text.as_str(), pattern) {
                return Some(i);
            }
            i += 1;
        }
        None
    }

    /// Whether `owner` has a rule for `pattern`.
    pub fn contains(&self, owner: u64, pattern: &str) -> (r: bool)
        requires
            self.wf(),
        ensures
            r == self@.contains(rule_of(owner, pattern@)),
    {
        self.position(owner, pattern).is_some()
    }

    /// Registers `pattern` for `owner`, unless the pattern engine turns it
    /// down or `owner` has that rule already.
    pub fn add(&mut self, owner: u64, pattern: &str) -> (r: Result<Outcome, CompileError>)
        requires
            old(self).wf(),
        ensures
            final(self).wf(),
            final(self)@ == after_add(old(self)@, owner, pattern@),
            match r {
                Ok(outcome) => add_outcome(old(self)@, owner, pattern@) == Ok::<
                    Outcome,
                    Seq<char>,
                >(outcome),
                Err(e) => add_outcome(old(self)@, owner, pattern@) == Err::<Outcome, Seq<char>>(
                    e.message@,
                ),
            },
    {
        match check_pattern(pattern) {
            Err(message) => Err(CompileError { message }),
            Ok(()) => {
                if self.contains(owner, pattern) {
                    Ok(Outcome::AlreadyExists)
                } else {
                    let rule = Rule { source_text: String::from_str(pattern), owner };
                    self.rules.push(rule);
                    assert(self@ =~= old(self)@.push(rule_of(owner, pattern@)));
                    Ok(Outcome::Added)
                }
            },
        }
    }

    /// Removes `owner`'s rule for `pattern`, if there is one.
    pub fn remove(&mut self, owner: u64, pattern: &str) -> (r: Removal)
        requires
            old(self).wf(),
        ensures
            final(self).wf(),
            final(self)@ == after_remove(old(self)@, owner, pattern@),
            !final(self)@.contains(rule_of(owner, pattern@)),
            r == remove_outcome(old(self)@, owner, pattern@),
    {
        match self.position(owner, pattern) {
            Some(i) => {
                self.rules.remove(i);
                assert(self@ =~= old(self)@.remove(i as int));
                Removal::Removed
            },
            None => Removal::NotFound,
        }
    }

    /// The source texts of `owner`'s rules, oldest first.
    pub fn list(&self, owner: u64) -> (r: Vec<String>)
        ensures
            r.deep_view() == sources_of(self@, owner),
    {
        let mut out: Vec<String> = Vec::new();
        let mut i: usize = 0;
        let ghost mine = |r: RuleView| r.owner == owner;
        let ghost source = |r: RuleView| r.source;
        while i < self.rules.len()
            invariant
                i <= self.rules.len(),
                mine == |r: RuleView| r.owner == owner,
                source == |r: RuleView| r.source,
                out.deep_view() == self@.take(i as int).filter(mine).map_values(source),
            decreases self.rules.len() - i,
        {
            let rule = &self.rules[i];
            let ghost before = out.deep_view();
            proof {
                assert(self@.take(i + 1) =~= self@.take(i as int).push(rule@));
                self@.take(i as int).lemma_filter_push(rule@, mine);
            }
            if rule.owner == owner {
                out.push(rule.source_text.clone());
                assert(self@.take(i as int).filter(mine).push(rule@).map_values(source)
                    =~= before.push(rule@.source));
            }
            i += 1;
        }
        assert(self@.take(self.rules.len() as int) =~= self@);
        out
    }

    /// The owners, other than `excluding`, of whom a rule fires on `text`:
    /// each once, in the order of their first such rule.
    pub fn match_against(&self, text: &str, excluding: u64) -> (r: Vec<u64>)
        ensures
            r@ == matched_owners(self@, text@, excluding),
    {
        let mut out: Vec<u64> = Vec::new();
        let mut i: usize = 0;
        while i < self.rules.len()
            invariant
                i <= self.rules.len(),
                out@ == matched_owners(self@.take(i as int), text@, excluding),
            decreases self.rules.len() - i,
        {
            let rule = &self.rules[i];
            proof {
                assert(self@.take(i + 1).drop_last() =~= self@.take(i as int));
            }
            if rule.owner != excluding && !holds(&out, rule.owner) && pattern_matches(
                rule.source_text.as_str(),
                text,
            ) {
                out.push(rule.owner);
            }
            i += 1;
        }
        assert(self@.take(self.rules.len() as int) =~= self@);
        out
    }
}

/// How often `owner`'s rule for `pattern` occurs among `rules`.
pub open spec fn occurrences(rules: Seq<RuleView>, owner: u64, pattern: Seq<char>) -> nat {
    rules.filter(|r: RuleView| r == rule_of(owner, pattern)).len()
}

/// Among rules of which no two are the same, a rule occurs once or not at
/// all.
pub proof fn lemma_occurrences(rules: Seq<RuleView>, owner: u64, pattern: Seq<char>)
    requires
        rules.no_duplicates(),
    ensures
        occurrences(rules, owner, pattern) == if rules.contains(rule_of(owner, pattern)) {
            1nat
        } else {
            0nat
        },
    decreases rules.len(),
{
    let rule = rule_of(owner, pattern);
    let same = |r: RuleView| r == rule_of(owner, pattern);
    if rules.len() == 0 {
        assert(rules.filter(same) =~= Seq::<RuleView>::empty()) by {
            reveal(Seq::filter);
        }
    } else {
        let front = rules.drop_last();
        assert(rules =~= front.push(rules.last()));
        lemma_occurrences(front, owner, pattern);
        front.lemma_filter_push(rules.last(), same);
        if front.contains(rule) {
            assert(rules[front.index_of(rule)] == rule);
        }
        if rules.contains(rule) && rules.last() != rule {
            assert(front[rules.index_of(rule)] == rule);
        }
    }
}

/// Adding keeps the rules free of doubles, and so does removing.
pub proof fn lemma_rules_stay_unique(rules: Seq<RuleView>, owner: u64, pattern: Seq<char>)
    requires
        rules.no_duplicates(),
    ensures
        after_add(rules, owner, pattern).no_duplicates(),
        after_remove(rules, owner, pattern).no_duplicates(),
{
    let rule = rule_of(owner, pattern);
    if rules.contains(rule) {
        let i = rules.index_of(rule);
        let rest = rules.remove(i);
        assert forall|a: int, b: int|
            0 <= a < rest.len() && 0 <= b < rest.len() && a != b implies rest[a] != rest[b] by {
            let a0 = if a < i { a } else { a + 1 };
            let b0 = if b < i { b } else { b + 1 };
            assert(rest[a] == rules[a0] && rest[b] == rules[b0]);
        }
    }
}

/// Adding the same pattern for the same owner twice: if the pattern
/// compiles, the second request reports that the rule exists already and
/// changes nothing, and the rule is there exactly once. If it does not
/// compile, both requests are turned down alike and nothing changes.
pub proof fn lemma_add_twice(rules: Seq<RuleView>, owner: u64, pattern: Seq<char>)
    requires
        rules.no_duplicates(),
    ensures
        after_add(after_add(rules, owner, pattern), owner, pattern) == after_add(
            rules,
            owner,
            pattern,
        ),
        compiles(pattern) ==> add_outcome(after_add(rules, owner, pattern), owner, pattern) == Ok::<
            Outcome,
            Seq<char>,
        >(Outcome::AlreadyExists),
        compiles(pattern) ==> occurrences(after_add(rules, owner, pattern), owner, pattern) == 1,
        !compiles(pattern) ==> add_outcome(after_add(rules, owner, pattern), owner, pattern)
            == add_outcome(rules, owner, pattern) && after_add(rules, owner, pattern) == rules,
{
    let rule = rule_of(owner, pattern);
    let once = after_add(rules, owner, pattern);
    lemma_rules_stay_unique(rules, owner, pattern);
    lemma_occurrences(once, owner, pattern);
    if compiles(pattern) && !rules.contains(rule) {
        assert(once[rules.len() as int] == rule);
    }
}

/// Adding a pattern and then removing it again: the rule is gone. Where it
/// was not there before, the rules are as they were; so an owner without
/// rules is without rules again.
pub proof fn lemma_add_then_remove(rules: Seq<RuleView>, owner: u64, pattern: Seq<char>)
    requires
        rules.no_duplicates(),
    ensures
        !after_remove(after_add(rules, owner, pattern), owner, pattern).contains(
            rule_of(owner, pattern),
        ),
        !rules.contains(rule_of(owner, pattern)) ==> after_remove(
            after_add(rules, owner, pattern),
            owner,
            pattern,
        ) == rules,
        sources_of(rules, owner).len() == 0 ==> sources_of(
            after_remove(after_add(rules, owner, pattern), owner, pattern),
            owner,
        ).len() == 0,
{
    let rule = rule_of(owner, pattern);
    let once = after_add(rules, owner, pattern);
    let back = after_remove(once, owner, pattern);
    lemma_rules_stay_unique(rules, owner, pattern);
    if compiles(pattern) && !rules.contains(rule) {
        assert(once[rules.len() as int] == rule);
        assert(back =~= rules);
    } else if once.contains(rule) {
        let i = once.index_of(rule);
        if back.contains(rule) {
            let j = back.index_of(rule);
            assert(once[if j < i { j } else { j + 1 }] == rule);
        }
    }
    if sources_of(rules, owner).len() == 0 && rules.contains(rule) {
        lemma_no_sources(rules, owner);
        assert(rules[rules.index_of(rule)].owner == owner);
    }
}

/// An owner's list is empty exactly if no rule is theirs.
pub proof fn lemma_no_sources(rules: Seq<RuleView>, owner: u64)
    ensures
        sources_of(rules, owner).len() == 0 <==> forall|i: int|
            0 <= i < rules.len() ==> (#[trigger] rules[i]).owner != owner,
{
    let mine = |r: RuleView| r.owner == owner;
    let kept = rules.filter(mine);
    if kept.len() > 0 {
        rules.lemma_filter_pred(mine, 0);
        rules.lemma_filter_contains_rev(mine, kept[0]);
        assert(rules[rules.index_of(kept[0])].owner == owner);
    }
    if exists|i: int| 0 <= i < rules.len() && (#[trigger] rules[i]).owner == owner {
        let i = choose|i: int| 0 <= i < rules.len() && (#[trigger] rules[i]).owner == owner;
        rules.lemma_filter_contains(mine, i);
    }
}

/// What `matched_owners` holds: nobody twice, and exactly the owners other
/// than `excluding` of whom a rule fires on `text`.
pub proof fn lemma_matched_owners(rules: Seq<RuleView>, text: Seq<char>, excluding: u64)
    ensures
        matched_owners(rules, text, excluding).no_duplicates(),
        !matched_owners(rules, text, excluding).contains(excluding),
        forall|owner: u64| #[trigger]
            matched_owners(rules, text, excluding).contains(owner) <==> (owner != excluding
                && watches(rules, owner, text)),
    decreases rules.len(),
{
    if rules.len() > 0 {
        let all = matched_owners(rules, text, excluding);
        let front = rules.drop_last();
        let before = matched_owners(front, text, excluding);
        lemma_matched_owners(front, text, excluding);
        assert forall|owner: u64| #[trigger]
            all.contains(owner) <==> (owner != excluding && watches(rules, owner, text)) by {
            if watches(rules, owner, text) {
                let i = choose|i: int|
                    0 <= i < rules.len() && (#[trigger] rules[i]).owner == owner && fires(
                        rules[i].source,
                        text,
                    );
                if i < front.len() {
                    assert(front[i] == rules[i]);
                }
            }
            if watches(front, owner, text) {
                let i = choose|i: int|
                    0 <= i < front.len() && (#[trigger] front[i]).owner == owner && fires(
                        front[i].source,
                        text,
                    );
                assert(rules[i] == front[i]);
            }
            if all.len() > before.len() {
                assert(all[before.len() as int] == rules.last().owner);
                if before.contains(owner) {
                    assert(all[before.index_of(owner)] == owner);
                }
            }
        }
    }
}

/// Whether `user` occurs in `users`.
pub fn holds(users: &Vec<u64>, user: u64) -> (r: bool)
    ensures
        r == users@.contains(user),
{
    let mut i: usize = 0;
    while i < users.len()
        invariant
            i <= users.len(),
            forall|j: int| 0 <= j < i ==> users@[j] != user,
        decreases users.len() - i,
    {
        if users[i] == user {
            return true;
        }
        i += 1;
    }
    false
}

} // verus!

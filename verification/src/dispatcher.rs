//! The dispatcher: what one incoming message does to the rules and the
//! cooldowns, and what is sent back.

use crate::command::{classify, Command, CommandView};
use crate::cooldown::{eligible, CooldownTracker, Cooldowns};
use crate::pattern::regex_compile_error;
use crate::reply::{
    invalid_reply, invalid_text, not_found_text, notification, notify_text, removal_reply,
    removed_text,
};
use crate::rules::{
    after_add, after_remove, lemma_matched_owners, lemma_rules_stay_unique, matched_owners,
    rule_of, sources_of, watches, Outcome, Removal, RuleStore, RuleView,
};
use crate::text::{join_lines, joined};
use vstd::prelude::*;
use vstd::string::*;

verus! {

/// The default cooldown window: five minutes, in seconds.
pub const TIMEOUT: u64 = 5 * 60;

/// Who sent a message.
#[derive(Clone, Copy, Debug, PartialEq, Eq, Structural)]
pub struct Author {
    pub id: u64,
    /// Whether the sender is an automated account.
    pub is_bot: bool,
}

/// One message as it comes in from the platform.
#[derive(Debug)]
pub struct IncomingMessage {
    pub author: Author,
    pub channel: u64,
    pub text: String,
}

/// A message as the contracts see it.
pub struct MessageView {
    pub author: Author,
    pub channel: u64,
    pub text: Seq<char>,
}

impl View for IncomingMessage {
    type V = MessageView;

    open spec fn view(&self) -> MessageView {
        MessageView { author: self.author, channel: self.channel, text: self.text@ }
    }
}

/// A dispatcher as the contracts see it.
pub struct DispatcherView {
    pub rules: Seq<RuleView>,
    pub cooldowns: Cooldowns,
    pub window: u64,
    pub help: Seq<char>,
}

/// The users that the plain message `m` notifies at the time `now`: the
/// owners of the rules that fire on it, without its author and without those
/// whose cooldown in the message's channel has not run out.
pub open spec fn notified(s: DispatcherView, m: MessageView, now: u64) -> Seq<u64> {
    matched_owners(s.rules, m.text, m.author.id).filter(
        |user: u64| eligible(s.cooldowns, user, m.channel, now, s.window),
    )
}

/// The cooldowns after each of `users` was notified in `channel` at `now`.
pub open spec fn refreshed(last: Cooldowns, users: Seq<u64>, channel: u64, now: u64) -> Cooldowns {
    Map::new(
        |k: (u64, u64)| last.contains_key(k) || (k.1 == channel && users.contains(k.0)),
        |k: (u64, u64)|
            if k.1 == channel && users.contains(k.0) {
                now
            } else {
                last[k]
            },
    )
}

/// The reply to a request to add `pattern` for `owner`; none for an empty
/// pattern.
pub open spec fn add_reply(rules: Seq<RuleView>, owner: u64, pattern: Seq<char>) -> Option<
    Seq<char>,
> {
    if pattern.len() == 0 {
        None
    } else {
        match regex_compile_error(pattern) {
            Some(error) => Some(invalid_text(error)),
            None => if rules.contains(rule_of(owner, pattern)) {
                Some("Regex already exists"@)
            } else {
                Some("Regex added"@)
            },
        }
    }
}

/// The reply to a request to remove `pattern` for `owner`.
pub open spec fn remove_reply(rules: Seq<RuleView>, owner: u64, pattern: Seq<char>) -> Seq<char> {
    if rules.contains(rule_of(owner, pattern)) {
        removed_text(pattern)
    } else {
        not_found_text(pattern)
    }
}

/// The reply to a plain message: none if it notifies nobody.
pub open spec fn plain_reply(s: DispatcherView, m: MessageView, now: u64) -> Option<Seq<char>> {
    if notified(s, m, now).len() == 0 {
        None
    } else {
        Some(notification(notified(s, m, now)))
    }
}

/// What is sent back for the message `m` that comes in at `now`.
pub open spec fn reply_to(s: DispatcherView, m: MessageView, now: u64) -> Option<Seq<char>> {
    if m.author.is_bot {
        None
    } else {
        match classify(m.text) {
            CommandView::Help => Some(s.help),
            CommandView::ListMine => Some(joined(sources_of(s.rules, m.author.id))),
            CommandView::Add(pattern) => add_reply(s.rules, m.author.id, pattern),
            CommandView::Remove(pattern) => Some(remove_reply(s.rules, m.author.id, pattern)),
            CommandView::Plain => plain_reply(s, m, now),
        }
    }
}

/// The dispatcher after the message `m` that comes in at `now`.
pub open spec fn next_state(s: DispatcherView, m: MessageView, now: u64) -> DispatcherView {
    if m.author.is_bot {
        s
    } else {
        match classify(m.text) {
            CommandView::Help => s,
            CommandView::ListMine => s,
            CommandView::Add(pattern) => if pattern.len() == 0 {
                s
            } else {
                DispatcherView { rules: after_add(s.rules, m.author.id, pattern), ..s }
            },
            CommandView::Remove(pattern) => DispatcherView {
                rules: after_remove(s.rules, m.author.id, pattern),
                ..s
            },
            CommandView::Plain => DispatcherView {
                cooldowns: refreshed(s.cooldowns, notified(s, m, now), m.channel, now),
                ..s
            },
        }
    }
}

/// The rules, the cooldowns, the cooldown window and the help text: all the
/// state there is, owned by one value and handed to it message by message.
pub struct Dispatcher {
    rules: RuleStore,
    cooldowns: CooldownTracker,
    window: u64,
    help: String,
}

impl View for Dispatcher {
    type V = DispatcherView;

    closed spec fn view(&self) -> DispatcherView {
        DispatcherView {
            rules: self.rules@,
            cooldowns: self.cooldowns@,
            window: self.window,
            help: self.help@,
        }
    }
}

impl Dispatcher {
    /// No two rules share both owner and source text.
    pub open spec fn wf(self) -> bool {
        self@.rules.no_duplicates()
    }

    /// A dispatcher without rules or cooldowns, which answers a help request
    /// with `help` and keeps `window` between two notifications of one user
    /// in one channel. `window` is in the unit of the times that
    /// `handle_message` is given.
    pub fn new(help: &str, window: u64) -> (r: Dispatcher)
        ensures
            r.wf(),
            r@ == (DispatcherView {
                rules: Seq::empty(),
                cooldowns: Map::empty(),
                window,
                help: help@,
            }),
    {
        Dispatcher {
            rules: RuleStore::new(),
            cooldowns: CooldownTracker::new(),
            window,
            help: String::from_str(help),
        }
    }

    /// The rule store.
    pub fn rules(&self) -> (r: &RuleStore)
        ensures
            r@ == self@.rules,
    {
        &self.rules
    }

    /// The cooldown tracker.
    pub fn cooldowns(&self) -> (r: &CooldownTracker)
        ensures
            r@ == self@.cooldowns,
    {
        &self.cooldowns
    }

    /// The cooldown window.
    pub fn window(&self) -> (r: u64)
        ensures
            r == self@.window,
    {
        self.window
    }

    /// Handles a request of `owner` to watch for `pattern`. An empty pattern
    /// changes nothing and gets no reply.
    pub fn add_rule(&mut self, owner: u64, pattern: &str) -> (reply: Option<String>)
        requires
            old(self).wf(),
        ensures
            final(self).wf(),
            final(self)@ == (if pattern@.len() == 0 {
                old(self)@
            } else {
                DispatcherView { rules: after_add(old(self)@.rules, owner, pattern@), ..old(self)@ }
            }),
            reply.deep_view() == add_reply(old(self)@.rules, owner, pattern@),
    {
        if pattern.unicode_len() == 0 {
            return None;
        }
        let text = match self.rules.add(owner, pattern) {
            Ok(Outcome::Added) => String::from_str("Regex added"),
            Ok(Outcome::AlreadyExists) => String::from_str("Regex already exists"),
            Err(e) => invalid_reply(e.message.as_str()),
        };
        Some(text)
    }

    /// Handles a request of `owner` to stop watching for `pattern`.
    pub fn remove_rule(&mut self, owner: u64, pattern: &str) -> (reply: String)
        requires
            old(self).wf(),
        ensures
            final(self).wf(),
            final(self)@ == (DispatcherView {
                rules: after_remove(old(self)@.rules, owner, pattern@),
                ..old(self)@
            }),
            reply@ == remove_reply(old(self)@.rules, owner, pattern@),
    {
        match self.rules.remove(owner, pattern) {
            Removal::Removed => removal_reply(pattern, true),
            Removal::NotFound => removal_reply(pattern, false),
        }
    }

    /// Holds a plain message against the rules: every owner of a rule that
    /// fires, but for the author and for those still cooling down in the
    /// message's channel, is mentioned in the one reply, and cools down from
    /// `now` on.
    pub fn notify(&mut self, message: &IncomingMessage, now: u64) -> (reply: Option<String>)
        requires
            old(self).wf(),
        ensures
            final(self).wf(),
            final(self)@ == (DispatcherView {
                cooldowns: refreshed(
                    old(self)@.cooldowns,
                    notified(old(self)@, message@, now),
                    message.channel,
                    now,
                ),
                ..old(self)@
            }),
            reply.deep_view() == plain_reply(old(self)@, message@, now),
    {
        let channel = message.channel;
        let matched = self.rules.match_against(message.text.as_str(), message.author.id);
        let ghost may = |user: u64|
            eligible(old(self)@.cooldowns, user, channel, now, old(self)@.window);
        let mut users: Vec<u64> = Vec::new();
        let mut i: usize = 0;
        while i < matched.len()
            invariant
                i <= matched.len(),
                *self == *old(self),
                may == |user: u64|
                    eligible(old(self)@.cooldowns, user, channel, now, old(self)@.window),
                users@ == matched@.take(i as int).filter(may),
            decreases matched.len() - i,
        {
            proof {
                assert(matched@.take(i + 1) =~= matched@.take(i as int).push(matched@[i as int]));
                matched@.take(i as int).lemma_filter_push(matched@[i as int], may);
            }
            if self.cooldowns.is_eligible(matched[i], channel, now, self.window) {
                users.push(matched[i]);
            }
            i += 1;
        }
        assert(matched@.take(matched.len() as int) =~= matched@);
        let mut j: usize = 0;
        while j < users.len()
            invariant
                j <= users.len(),
                self.rules == old(self).rules,
                self.window == old(self).window,
                self.help == old(self).help,
                self.cooldowns@ == refreshed(
                    old(self)@.cooldowns,
                    users@.take(j as int),
                    channel,
                    now,
                ),
            decreases users.len() - j,
        {
            self.cooldowns.refresh(users[j], channel, now);
            proof {
                let before = users@.take(j as int);
                let after = users@.take(j + 1);
                assert forall|u: u64| after.contains(u) <==> (before.contains(u) || u
                    == users@[j as int]) by {
                    if before.contains(u) {
                        assert(after[before.index_of(u)] == u);
                    }
                    if u == users@[j as int] {
                        assert(after[j as int] == u);
                    }
                }
            }
            j += 1;
        }
        assert(users@.take(users.len() as int) =~= users@);
        if users.len() == 0 {
            None
        } else {
            Some(notify_text(&users))
        }
    }

    /// Handles one incoming message that arrives at the time `now`, and
    /// returns what is to be sent to the message's channel, if anything.
    /// A message of an automated account does nothing at all.
    pub fn handle_message(&mut self, message: &IncomingMessage, now: u64) -> (reply: Option<String>)
        requires
            old(self).wf(),
        ensures
            final(self).wf(),
            final(self)@ == next_state(old(self)@, message@, now),
            reply.deep_view() == reply_to(old(self)@, message@, now),
            message.author.is_bot ==> reply is None && final(self)@ == old(self)@,
    {
        if message.author.is_bot {
            return None;
        }
        let author = message.author.id;
        match Command::parse(message.text.as_str()) {
            Command::Help => Some(self.help.clone()),
            Command::ListMine => {
                let mine = self.rules.list(author);
                Some(join_lines(&mine))
            },
            Command::Add(pattern) => self.add_rule(author, pattern.as_str()),
            Command::Remove(pattern) => Some(self.remove_rule(author, pattern.as_str())),
            Command::Plain => self.notify(message, now),
        }
    }
}

/// What is kept of `users` under `keep`: those of `users` that `keep` holds
/// of.
proof fn lemma_filter_holds(users: Seq<u64>, keep: spec_fn(u64) -> bool, user: u64)
    ensures
        users.filter(keep).contains(user) <==> users.contains(user) && keep(user),
{
    let kept = users.filter(keep);
    if kept.contains(user) {
        users.lemma_filter_contains_rev(keep, user);
        users.lemma_filter_pred(keep, kept.index_of(user));
    }
    if users.contains(user) && keep(user) {
        users.lemma_filter_contains(keep, users.index_of(user));
    }
}

/// Leaving some out of `users` brings nobody in twice.
proof fn lemma_filter_keeps_unique(users: Seq<u64>, keep: spec_fn(u64) -> bool)
    requires
        users.no_duplicates(),
    ensures
        users.filter(keep).no_duplicates(),
    decreases users.len(),
{
    if users.len() == 0 {
        users.lemma_filter_len(keep);
    } else {
        let front = users.drop_last();
        let last = users.last();
        let kept = front.filter(keep);
        assert(users =~= front.push(last));
        lemma_filter_keeps_unique(front, keep);
        front.lemma_filter_push(last, keep);
        if keep(last) {
            lemma_filter_holds(front, keep, last);
            if front.contains(last) {
                assert(users[front.index_of(last)] == users[users.len() - 1]);
            }
        }
    }
}

/// Who a plain message notifies: exactly the users, other than its author,
/// of whom a rule fires on it and whose cooldown in its channel has run out;
/// and nobody twice.
pub proof fn lemma_notified(s: DispatcherView, m: MessageView, now: u64)
    ensures
        notified(s, m, now).no_duplicates(),
        forall|user: u64| #[trigger]
            notified(s, m, now).contains(user) <==> (user != m.author.id && watches(
                s.rules,
                user,
                m.text,
            ) && eligible(s.cooldowns, user, m.channel, now, s.window)),
{
    let matched = matched_owners(s.rules, m.text, m.author.id);
    let may = |user: u64| eligible(s.cooldowns, user, m.channel, now, s.window);
    lemma_matched_owners(s.rules, m.text, m.author.id);
    lemma_filter_keeps_unique(matched, may);
    assert forall|user: u64| #[trigger]
        notified(s, m, now).contains(user) <==> (user != m.author.id && watches(
            s.rules,
            user,
            m.text,
        ) && eligible(s.cooldowns, user, m.channel, now, s.window)) by {
        lemma_filter_holds(matched, may, user);
    }
}

/// A message never notifies its own author, whatever rules the author has,
/// and leaves the author's cooldowns as they were.
pub proof fn lemma_author_not_notified(s: DispatcherView, m: MessageView, now: u64)
    ensures
        !notified(s, m, now).contains(m.author.id),
        forall|channel: u64|
            #![trigger next_state(s, m, now).cooldowns.contains_key((m.author.id, channel))]
            next_state(s, m, now).cooldowns.contains_key((m.author.id, channel))
                == s.cooldowns.contains_key((m.author.id, channel)) && (s.cooldowns.contains_key(
                (m.author.id, channel),
            ) ==> next_state(s, m, now).cooldowns[(m.author.id, channel)] == s.cooldowns[(
                m.author.id,
                channel,
            )]),
{
    lemma_notified(s, m, now);
}

/// After a plain message has notified `user` in a channel at the time `at`,
/// a message in that channel notifies `user` again only once more than the
/// window has gone by: up to `at + window` never, and after that whenever
/// one of `user`'s rules fires on it and `user` is not its author.
pub proof fn lemma_debounce(
    s: DispatcherView,
    first: MessageView,
    at: u64,
    second: MessageView,
    now: u64,
    user: u64,
)
    requires
        !first.author.is_bot,
        classify(first.text) is Plain,
        notified(s, first, at).contains(user),
        second.channel == first.channel,
    ensures
        now <= at + s.window ==> !notified(next_state(s, first, at), second, now).contains(user),
        now > at + s.window ==> (notified(next_state(s, first, at), second, now).contains(user) <==> (
        user != second.author.id && watches(s.rules, user, second.text))),
{
    let then = next_state(s, first, at);
    lemma_notified(then, second, now);
}

/// A message of an automated account gets no reply and changes nothing,
/// whatever its text.
pub proof fn lemma_bots_are_ignored(s: DispatcherView, m: MessageView, now: u64)
    requires
        m.author.is_bot,
    ensures
        reply_to(s, m, now) is None,
        next_state(s, m, now) == s,
{
}

/// Only a plain message touches the cooldowns, and a plain message touches
/// nothing else; the window and the help text never change.
pub proof fn lemma_what_a_message_touches(s: DispatcherView, m: MessageView, now: u64)
    ensures
        !(classify(m.text) is Plain) ==> next_state(s, m, now).cooldowns == s.cooldowns,
        classify(m.text) is Plain ==> next_state(s, m, now).rules == s.rules,
        next_state(s, m, now).window == s.window,
        next_state(s, m, now).help == s.help,
{
}

/// No message brings about two rules with the same owner and source text.
pub proof fn lemma_rules_unique_after(s: DispatcherView, m: MessageView, now: u64)
    requires
        s.rules.no_duplicates(),
    ensures
        next_state(s, m, now).rules.no_duplicates(),
{
    match classify(m.text) {
        CommandView::Add(pattern) => lemma_rules_stay_unique(s.rules, m.author.id, pattern),
        CommandView::Remove(pattern) => lemma_rules_stay_unique(s.rules, m.author.id, pattern),
        _ => {},
    }
}

} // verus!

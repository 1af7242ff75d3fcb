//! The texts that go back to the channel.

use crate::text::{decimal, push_decimal};
use vstd::prelude::*;
use vstd::string::*;

verus! {

/// The reference to `user` that the platform turns into a ping: `<@`, the
/// user's number in base ten, `>`.
pub open spec fn mention(user: u64) -> Seq<char> {
    seq!['<', '@'] + decimal(user as nat) + seq!['>']
}

/// The notification for `users`: `Hey!`, then a space and a mention for each.
pub open spec fn notification(users: Seq<u64>) -> Seq<char>
    decreases users.len(),
{
    if users.len() == 0 {
        "Hey!"@
    } else {
        notification(users.drop_last()) + seq![' '] + mention(users.last())
    }
}

/// The reply to a pattern that the pattern engine turned down with `error`.
pub open spec fn invalid_text(error: Seq<char>) -> Seq<char> {
    "Invalid regex. "@ + error
}

/// The reply to a removal of `pattern` that found its rule.
pub open spec fn removed_text(pattern: Seq<char>) -> Seq<char> {
    "Regex "@ + pattern + " removed"@
}

/// The reply to a removal of `pattern` that found no rule.
pub open spec fn not_found_text(pattern: Seq<char>) -> Seq<char> {
    "Regex "@ + pattern + " was not found"@
}

/// Writes a mention of `user` at the end of `out`.
pub fn push_mention(out: &mut String, user: u64)
    ensures
        final(out)@ == old(out)@ + mention(user),
{
    proof {
        reveal_strlit("<@");
        reveal_strlit(">");
    }
    out.append("<@");
    push_decimal(out, user);
    out.append(">");
}

/// The notification that mentions each of `users`, in their order.
pub fn notify_text(users: &Vec<u64>) -> (r: String)
    ensures
        r@ == notification(users@),
{
    let mut out = String::from_str("Hey!");
    let mut i: usize = 0;
    while i < users.len()
        invariant
            i <= users.len(),
            out@ == notification(users@.take(i as int)),
        decreases users.len() - i,
    {
        proof {
            reveal_strlit(" ");
            assert(users@.take(i + 1).drop_last() =~= users@.take(i as int));
        }
        out.append(" ");
        push_mention(&mut out, users[i]);
        i += 1;
    }
    assert(users@.take(users.len() as int) =~= users@);
    out
}

/// The reply to a pattern that the pattern engine turned down.
pub fn invalid_reply(error: &str) -> (r: String)
    ensures
        r@ == invalid_text(error@),
{
    String::from_str("Invalid regex. ").concat(error)
}

/// The reply to a removal: whether the rule for `pattern` was there.
pub fn removal_reply(pattern: &str, found: bool) -> (r: String)
    ensures
        r@ == if found {
            removed_text(pattern@)
        } else {
            not_found_text(pattern@)
        },
{
    let head = String::from_str("Regex ").concat(pattern);
    if found {
        head.concat(" removed")
    } else {
        head.concat(" was not found")
    }
}

} // verus!

//! Reading a chat message as a command for the bot.
use vstd::prelude::*;
use vstd::string::*;

verus! {

/// What a chat message asks of the bot.
pub enum Command {
    /// The message is not addressed to the bot.
    Ignore,
    /// Forget the conversation's history.
    Clear,
    /// Answer this prompt.
    Prompt(String),
}

/// The prefix that addresses the bot in a conversation of several people.
pub open spec fn prefix_chars() -> Seq<char> {
    seq!['!', 'l', 'l', 'a', 'm', 'a']
}

/// The whole message that clears a conversation's history.
pub open spec fn clear_chars() -> Seq<char> {
    prefix_chars() + seq!['c', 'l', 'e', 'a', 'r']
}

pub open spec fn is_blank(c: char) -> bool {
    c == ' ' || c == '\t' || c == '\n' || c == '\r'
}

/// `s` without its leading blanks.
pub open spec fn trim_start(s: Seq<char>) -> Seq<char>
    decreases s.len(),
{
    if s.len() > 0 && is_blank(s[0]) {
        trim_start(s.drop_first())
    } else {
        s
    }
}

pub open spec fn has_prefix(s: Seq<char>, p: Seq<char>) -> bool {
    p.len() <= s.len() && s.subrange(0, p.len() as int) == p
}

/// `Some(prompt)` where the message asks for an answer to `prompt`, `None`
/// where it asks for none; the clear message is read by `is_clear`.
pub open spec fn prompt_of(body: Seq<char>, is_direct: bool) -> Option<Seq<char>> {
    if has_prefix(body, prefix_chars()) {
        Some(trim_start(body.subrange(prefix_chars().len() as int, body.len() as int)))
    } else if is_direct {
        Some(body)
    } else {
        None
    }
}

fn starts_with(s: &str, p: &str) -> (r: bool)
    ensures
        r == has_prefix(s@, p@),
{
    let n = s.unicode_len();
    let k = p.unicode_len();
    if k > n {
        return false;
    }
    let mut i: usize = 0;
    while i < k
        invariant
            k == p@.len(),
            n == s@.len(),
            k <= n,
            i <= k,
            s@.subrange(0, i as int) == p@.subrange(0, i as int),
        decreases k - i,
    {
        if s.get_char(i) != p.get_char(i) {
            proof {
                assert(s@.subrange(0, k as int)[i as int] != p@[i as int]);
            }
            return false;
        }
        proof {
            assert(s@.subrange(0, i + 1) =~= s@.subrange(0, i as int).push(s@[i as int]));
            assert(p@.subrange(0, i + 1) =~= p@.subrange(0, i as int).push(p@[i as int]));
        }
        i = i + 1;
    }
    proof {
        assert(p@.subrange(0, k as int) =~= p@);
    }
    true
}

/// Reads a message of a conversation: the exact clear message clears it; a
/// message that starts with the prefix asks for an answer to the rest, its
/// leading blanks dropped; in a one-to-one conversation any other message is
/// a prompt as it stands; in a conversation of several people it is ignored.
pub fn parse_command(body: &str, is_direct: bool) -> (r: Command)
    ensures
        body@ == clear_chars() ==> r is Clear,
        body@ != clear_chars() ==> match prompt_of(body@, is_direct) {
            Some(p) => r is Prompt && r->Prompt_0@ == p,
            None => r is Ignore,
        },
{
    proof {
        reveal_strlit("!llamaclear");
        reveal_strlit("!llama");
        assert("!llamaclear"@ =~= clear_chars());
        assert("!llama"@ =~= prefix_chars());
    }
    let n = body.unicode_len();
    if n == 11 && starts_with(body, "!llamaclear") {
        proof { assert(body@ =~= body@.subrange(0, 11)); }
        return Command::Clear;
    }
    proof {
        if body@ == clear_chars() {
            assert(body@.subrange(0, 11) =~= body@);
        }
    }
    if starts_with(body, "!llama") {
        let mut i: usize = 6;
        while i < n && is_blank_char(body.get_char(i))
            invariant
                n == body@.len(),
                6 <= i <= n,
                trim_start(body@.subrange(6, n as int)) == trim_start(body@.subrange(i as int, n as int)),
            decreases n - i,
        {
            proof {
                let t = body@.subrange(i as int, n as int);
                assert(t.drop_first() =~= body@.subrange(i + 1, n as int));
            }
            i = i + 1;
        }
        proof {
            let t = body@.subrange(i as int, n as int);
            if i < n {
                assert(t[0] == body@[i as int]);
            }
        }
        let rest = body.substring_char(i, n);
        Command::Prompt(String::from_str(rest))
    } else if is_direct {
        Command::Prompt(String::from_str(body))
    } else {
        Command::Ignore
    }
}

fn is_blank_char(c: char) -> (r: bool)
    ensures
        r == is_blank(c),
{
    c == ' ' || c == '\t' || c == '\n' || c == '\r'
}

} // verus!

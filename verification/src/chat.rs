//! Outgoing chat messages: joining the command arguments, prepending the
//! initial instruction on the first round, and quoting the result for the
//! host's command line.

use vstd::prelude::*;
use vstd::string::*;
use crate::text::{join_with, line_views, join_range};

verus! {

/// What one character of the message becomes under quoting: an embedded
/// single quote becomes `'\''`; with `special`, `!` and `%` get a
/// backslash; everything else stays itself.
pub open spec fn esc_char(c: char, special: bool) -> Seq<char> {
    if c == '\'' {
        seq!['\'', '\\', '\'', '\'']
    } else if special && c == '!' {
        seq!['\\', '!']
    } else if special && c == '%' {
        seq!['\\', '%']
    } else {
        seq![c]
    }
}

/// The quoted body: every character of `s` escaped, concatenated.
pub open spec fn esc_body(s: Seq<char>, special: bool) -> Seq<char>
    decreases s.len(),
{
    if s.len() == 0 {
        Seq::empty()
    } else {
        esc_char(s[0], special) + esc_body(s.drop_first(), special)
    }
}

pub proof fn lemma_esc_push(s: Seq<char>, c: char, special: bool)
    ensures
        esc_body(s.push(c), special) == esc_body(s, special) + esc_char(c, special),
    decreases s.len(),
{
    if s.len() == 0 {
        assert(s.push(c)[0] == c);
        assert(s.push(c).drop_first() =~= Seq::<char>::empty());
        assert(esc_body(Seq::<char>::empty(), special) == Seq::<char>::empty());
        assert(esc_body(s.push(c), special) == esc_char(c, special) + esc_body(
            Seq::<char>::empty(),
            special,
        ));
        assert(esc_char(c, special) + Seq::<char>::empty() =~= esc_char(c, special));
        assert(Seq::<char>::empty() + esc_char(c, special) =~= esc_char(c, special));
    } else {
        assert(s.push(c)[0] == s[0]);
        assert(s.push(c).drop_first() =~= s.drop_first().push(c));
        lemma_esc_push(s.drop_first(), c, special);
        assert(esc_char(s[0], special) + (esc_body(s.drop_first(), special) + esc_char(c, special))
            =~= (esc_char(s[0], special) + esc_body(s.drop_first(), special)) + esc_char(
            c,
            special,
        ));
    }
}

/// What `shellescape` returns: the escaped body wrapped in single quotes.
pub open spec fn shellescape_spec(s: Seq<char>, special: bool) -> Seq<char> {
    seq!['\''] + esc_body(s, special) + seq!['\'']
}

/// Quote `s` for the host's command line, like the editor's own
/// `shellescape()`: wrap it in single quotes and turn every embedded
/// single quote into `'\''`; with `special`, additionally backslash-escape
/// `!` and `%`.
pub fn shellescape(s: &str, special: bool) -> (r: String)
    ensures
        r@ == shellescape_spec(s@, special),
{
    let n = s.unicode_len();
    let mut r = String::from_str("'");
    proof {
        reveal_strlit("'");
        assert(("'")@ =~= seq!['\'']);
        assert(s@.subrange(0, 0) =~= Seq::<char>::empty());
    }
    let mut i: usize = 0;
    while i < n
        invariant
            i <= n,
            n == s@.len(),
            r@ == seq!['\''] + esc_body(s@.subrange(0, i as int), special),
        decreases n - i,
    {
        let c = s.get_char(i);
        proof {
            assert(s@.subrange(0, i + 1) =~= s@.subrange(0, i as int).push(s@[i as int]));
            lemma_esc_push(s@.subrange(0, i as int), s@[i as int], special);
        }
        if c == '\'' {
            r.append("'\\''");
            proof {
                reveal_strlit("'\\''");
                assert(("'\\''")@ =~= seq!['\'', '\\', '\'', '\'']);
            }
        } else if special && c == '!' {
            r.append("\\!");
            proof {
                reveal_strlit("\\!");
                assert(("\\!")@ =~= seq!['\\', '!']);
            }
        } else if special && c == '%' {
            r.append("\\%");
            proof {
                reveal_strlit("\\%");
                assert(("\\%")@ =~= seq!['\\', '%']);
            }
        } else {
            let piece = s.substring_char(i, i + 1);
            r.append(piece);
            proof {
                assert(s@.subrange(i as int, i + 1) =~= seq![s@[i as int]]);
            }
        }
        i = i + 1;
    }
    r.append("'");
    proof {
        assert(s@.subrange(0, n as int) =~= s@);
    }
    r
}

/// The instruction prepended to the first chat message of a session.
pub open spec fn initial_instruction() -> Seq<char> {
    "Always output full files, never just partial code. Never omit code, even if it is unchanged"@
}

/// The outgoing chat message: the command arguments joined with single
/// spaces, with the initial instruction and a space in front on the first
/// round.
pub open spec fn compose_spec(parts: Seq<Seq<char>>, first_round: bool) -> Seq<char> {
    let msg = join_with(parts, seq![' ']);
    if first_round {
        initial_instruction() + seq![' '] + msg
    } else {
        msg
    }
}

/// Build the outgoing chat message from the command arguments.
pub fn compose_message(parts: &Vec<String>, first_round: bool) -> (r: String)
    ensures
        r@ == compose_spec(line_views(parts@), first_round),
{
    proof {
        reveal_strlit(" ");
        assert((" ")@ =~= seq![' ']);
        assert(line_views(parts@).subrange(0, parts@.len() as int) =~= line_views(parts@));
    }
    let joined = join_range(parts, 0, parts.len(), " ");
    if first_round {
        let mut r = String::from_str(
            "Always output full files, never just partial code. Never omit code, even if it is unchanged",
        );
        r.append(" ");
        r.append(joined.as_str());
        r
    } else {
        joined
    }
}

/// The full host command that issues a chat message: the message quoted
/// with the special characters escaped, after the chat command's name.
pub open spec fn chat_command_spec(message: Seq<char>) -> Seq<char> {
    "Augment chat "@ + shellescape_spec(message, true)
}

/// Build the host command line that sends `message` to the chat.
pub fn chat_command(message: &str) -> (r: String)
    ensures
        r@ == chat_command_spec(message@),
{
    let mut r = String::from_str("Augment chat ");
    let esc = shellescape(message, true);
    r.append(esc.as_str());
    r
}

} // verus!

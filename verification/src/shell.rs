//! Safe quoting of strings that become shell-visible words, and the small
//! fixed vocabulary of statement fragments the compiler assembles.

use vstd::prelude::*;
use vstd::string::StrSliceExecFns;
use crate::text::push_char;

verus! {

/// Characters that may appear in a shell word without any quoting.
pub open spec fn spec_shell_safe_char(c: char) -> bool {
    let u = c as u32;
    (97 <= u <= 122)  // a-z
    || (65 <= u <= 90)  // A-Z
    || (48 <= u <= 57)  // 0-9
    || c == '-' || c == '_' || c == '.' || c == '/' || c == ':' || c == '@' || c == '+'
        || c == '=' || c == ','
}

/// A nonempty string of safe characters needs no quoting.
pub open spec fn spec_shell_safe(s: Seq<char>) -> bool {
    s.len() > 0 && (forall|i: int| 0 <= i < s.len() ==> spec_shell_safe_char(s[i]))
}

/// The body of a single-quoted shell word: every embedded single quote is
/// rendered as the four characters `'\''`.
pub open spec fn spec_squote_escaped(s: Seq<char>) -> Seq<char>
    decreases s.len(),
{
    if s.len() == 0 {
        Seq::empty()
    } else {
        (if s[0] == '\'' {
            seq!['\'', '\\', '\'', '\'']
        } else {
            seq![s[0]]
        }) + spec_squote_escaped(s.skip(1))
    }
}

/// A string quoted for use as one shell word: passed through when it is
/// safe as it stands, otherwise wrapped in single quotes with embedded
/// single quotes escaped.
pub open spec fn spec_shell_quoted(s: Seq<char>) -> Seq<char> {
    if spec_shell_safe(s) {
        s
    } else {
        seq!['\''] + spec_squote_escaped(s) + seq!['\'']
    }
}

fn shell_safe_char(c: char) -> (r: bool)
    ensures
        r == spec_shell_safe_char(c),
{
    let u = c as u32;
    (97 <= u && u <= 122) || (65 <= u && u <= 90) || (48 <= u && u <= 57) || c == '-' || c == '_'
        || c == '.' || c == '/' || c == ':' || c == '@' || c == '+' || c == '=' || c == ','
}

/// Quote a string so that the shell reads it back as exactly one word with
/// exactly the same characters.
pub fn shell_quote(s: &str) -> (r: String)
    ensures
        r@ == spec_shell_quoted(s@),
{
    let n = s.unicode_len();
    let mut safe = n > 0;
    let mut i: usize = 0;
    while i < n
        invariant
            i <= n,
            n == s@.len(),
            safe == (n > 0 && (forall|j: int| 0 <= j < i ==> spec_shell_safe_char(s@[j]))),
        decreases n - i,
    {
        if !shell_safe_char(s.get_char(i)) {
            safe = false;
        }
        i += 1;
    }
    if safe {
        let r = s.to_owned();
        return r;
    }
    let mut r = String::new();
    push_char(&mut r, '\'');
    let mut i: usize = 0;
    while i < n
        invariant
            i <= n,
            n == s@.len(),
            r@ == seq!['\''] + spec_squote_escaped(s@.subrange(0, i as int)),
        decreases n - i,
    {
        let c = s.get_char(i);
        if c == '\'' {
            push_char(&mut r, '\'');
            push_char(&mut r, '\\');
            push_char(&mut r, '\'');
            push_char(&mut r, '\'');
        } else {
            push_char(&mut r, c);
        }
        proof {
            lemma_squote_escaped_snoc(s@.subrange(0, i as int), s@[i as int]);
            assert(s@.subrange(0, i + 1) =~= s@.subrange(0, i as int).push(s@[i as int]));
            assert(r@ =~= seq!['\''] + spec_squote_escaped(s@.subrange(0, i + 1)));
        }
        i += 1;
    }
    push_char(&mut r, '\'');
    proof {
        assert(s@.subrange(0, n as int) =~= s@);
        assert(r@ =~= seq!['\''] + spec_squote_escaped(s@) + seq!['\'']);
    }
    r
}

/// Appending one character extends the escaped rendering by that
/// character's rendering.
proof fn lemma_squote_escaped_snoc(s: Seq<char>, c: char)
    ensures
        spec_squote_escaped(s.push(c)) == spec_squote_escaped(s) + (if c == '\'' {
            seq!['\'', '\\', '\'', '\'']
        } else {
            seq![c]
        }),
    decreases s.len(),
{
    if s.len() == 0 {
        assert(s.push(c).skip(1) =~= Seq::<char>::empty());
        assert(s.push(c)[0] == c);
        assert(spec_squote_escaped(s.push(c)) =~= spec_squote_escaped(s) + (if c == '\'' {
            seq!['\'', '\\', '\'', '\'']
        } else {
            seq![c]
        }));
    } else {
        assert(s.push(c).skip(1) =~= s.skip(1).push(c));
        assert(s.push(c)[0] == s[0]);
        lemma_squote_escaped_snoc(s.skip(1), c);
        assert(s.push(c).len() > 0);
        assert(spec_squote_escaped(s.push(c)) == (if s.push(c)[0] == '\'' {
            seq!['\'', '\\', '\'', '\'']
        } else {
            seq![s.push(c)[0]]
        }) + spec_squote_escaped(s.push(c).skip(1)));
        assert(spec_squote_escaped(s.push(c).skip(1)) == spec_squote_escaped(s.skip(1).push(c)));
        assert(spec_squote_escaped(s.push(c)) == (if s[0] == '\'' {
            seq!['\'', '\\', '\'', '\'']
        } else {
            seq![s[0]]
        }) + (spec_squote_escaped(s.skip(1)) + (if c == '\'' {
            seq!['\'', '\\', '\'', '\'']
        } else {
            seq![c]
        })));
        assert(spec_squote_escaped(s.push(c)) =~= spec_squote_escaped(s) + (if c == '\'' {
            seq!['\'', '\\', '\'', '\'']
        } else {
            seq![c]
        }));
    }
}

} // verus!

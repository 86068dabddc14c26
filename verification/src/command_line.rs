//! Splitting a command string into program and arguments.
//!
//! A token is a maximal run of parts, where a part is either a span
//! of characters that are neither whitespace nor double quotes, or a
//! double-quoted span. An opening quote with no closing quote starts
//! no part. Once a token's span is found, double quotes are stripped
//! from both of its ends.

use vstd::prelude::*;
use vstd::string::*;

verus! {

/// The captured output of a finished process.
#[derive(Debug)]
pub struct CommandOutput {
    pub code: Option<i32>,
    pub signal: Option<i32>,
    pub stdout: String,
    pub stderr: String,
}

/// Whitespace, as a tokenizer sees it: the Unicode white-space
/// characters.
pub open spec fn is_space(c: char) -> bool {
    ||| c == '\u{0009}'
    ||| c == '\u{000A}'
    ||| c == '\u{000B}'
    ||| c == '\u{000C}'
    ||| c == '\u{000D}'
    ||| c == ' '
    ||| c == '\u{0085}'
    ||| c == '\u{00A0}'
    ||| c == '\u{1680}'
    ||| ('\u{2000}' <= c && c <= '\u{200A}')
    ||| c == '\u{2028}'
    ||| c == '\u{2029}'
    ||| c == '\u{202F}'
    ||| c == '\u{205F}'
    ||| c == '\u{3000}'
}

/// The first double quote at or after `from`.
pub open spec fn find_close(s: Seq<char>, from: int) -> Option<int>
    decreases s.len() - from,
{
    if from < 0 || from >= s.len() {
        Option::None
    } else if s[from] == '"' {
        Option::Some(from)
    } else {
        find_close(s, from + 1)
    }
}

pub proof fn lemma_find_close_props(s: Seq<char>, from: int)
    requires
        0 <= from,
    ensures
        match find_close(s, from) {
            Option::Some(c) => from <= c < s.len() && s[c] == '"' && forall|m: int|
                from <= m < c ==> s[m] != '"',
            Option::None => forall|m: int| from <= m < s.len() ==> s[m] != '"',
        },
    decreases s.len() - from,
{
    if from < s.len() && s[from] != '"' {
        lemma_find_close_props(s, from + 1);
    }
}

/// Where the token that starts at `i` ends: parts are consumed
/// greedily, either one plain character or one whole quoted span at
/// a time, until whitespace, an unclosed quote, or the end stops the
/// token. (The range tests on the recursion guard are facts of
/// `find_close`; they keep the definition visibly well-founded.)
pub open spec fn token_end(s: Seq<char>, i: int) -> int
    decreases s.len() - i,
{
    if i < 0 || i >= s.len() {
        i
    } else if !is_space(s[i]) && s[i] != '"' {
        token_end(s, i + 1)
    } else if s[i] == '"' {
        match find_close(s, i + 1) {
            Option::Some(c) => if i + 1 <= c < s.len() {
                token_end(s, c + 1)
            } else {
                i
            },
            Option::None => i,
        }
    } else {
        i
    }
}

pub proof fn lemma_token_end_bounds(s: Seq<char>, i: int)
    requires
        0 <= i <= s.len(),
    ensures
        i <= token_end(s, i) <= s.len(),
    decreases s.len() - i,
{
    if i < s.len() {
        if !is_space(s[i]) && s[i] != '"' {
            lemma_token_end_bounds(s, i + 1);
        } else if s[i] == '"' {
            match find_close(s, i + 1) {
                Option::Some(c) => {
                    if i + 1 <= c < s.len() {
                        lemma_token_end_bounds(s, c + 1);
                    }
                },
                Option::None => {},
            }
        }
    }
}

/// Double quotes stripped from both ends.
pub open spec fn trim_quotes(t: Seq<char>) -> Seq<char>
    decreases t.len(),
{
    if t.len() > 0 && t[0] == '"' {
        trim_quotes(t.drop_first())
    } else if t.len() > 0 && t.last() == '"' {
        trim_quotes(t.drop_last())
    } else {
        t
    }
}

/// The tokens of `s` from position `i` on: whitespace and unclosed
/// quotes are skipped; everywhere else a token span is taken and
/// trimmed of its quotes. (The range test on the recursion guard is
/// a fact of `token_end`; it keeps the definition visibly
/// well-founded.)
pub open spec fn spec_tokens(s: Seq<char>, i: int) -> Seq<Seq<char>>
    decreases s.len() - i,
{
    if i < 0 || i >= s.len() {
        Seq::empty()
    } else if is_space(s[i]) {
        spec_tokens(s, i + 1)
    } else if s[i] == '"' && find_close(s, i + 1) is None {
        spec_tokens(s, i + 1)
    } else {
        let j = token_end(s, i);
        if i < j <= s.len() {
            seq![trim_quotes(s.subrange(i, j))] + spec_tokens(s, j)
        } else {
            Seq::empty()
        }
    }
}

/// Whether `c` is tokenizer whitespace.
fn is_space_exec(c: char) -> (r: bool)
    ensures
        r == is_space(c),
{
    c == '\u{0009}' || c == '\u{000A}' || c == '\u{000B}' || c == '\u{000C}' || c == '\u{000D}'
        || c == ' ' || c == '\u{0085}' || c == '\u{00A0}' || c == '\u{1680}' || ('\u{2000}' <= c
        && c <= '\u{200A}') || c == '\u{2028}' || c == '\u{2029}' || c == '\u{202F}' || c
        == '\u{205F}' || c == '\u{3000}'
}

/// The first double quote at or after `from`.
fn find_close_exec(s: &str, from: usize, n: usize) -> (r: Option<usize>)
    requires
        n == s@.len(),
        from <= n,
    ensures
        match (r, find_close(s@, from as int)) {
            (Option::Some(a), Option::Some(b)) => a == b,
            (Option::None, Option::None) => true,
            _ => false,
        },
{
    let mut k: usize = from;
    while k < n
        invariant
            from <= k <= n,
            n == s@.len(),
            find_close(s@, from as int) == find_close(s@, k as int),
        decreases n - k,
    {
        if s.get_char(k) == '"' {
            return Option::Some(k);
        }
        k = k + 1;
    }
    Option::None
}

/// Where the token that starts at `i` ends.
fn token_end_exec(s: &str, i: usize, n: usize) -> (r: usize)
    requires
        n == s@.len(),
        i <= n,
    ensures
        r == token_end(s@, i as int),
        i <= r <= n,
{
    let mut pos: usize = i;
    loop
        invariant
            i <= pos <= n,
            n == s@.len(),
            token_end(s@, i as int) == token_end(s@, pos as int),
        decreases n - pos,
    {
        if pos >= n {
            return pos;
        }
        let c = s.get_char(pos);
        if !is_space_exec(c) && c != '"' {
            pos = pos + 1;
        } else if c == '"' {
            match find_close_exec(s, pos + 1, n) {
                Option::Some(cl) => {
                    proof {
                        lemma_find_close_props(s@, pos + 1);
                    }
                    pos = cl + 1;
                },
                Option::None => {
                    return pos;
                },
            }
        } else {
            return pos;
        }
    }
}

/// Parse a command string into the program and its arguments: the
/// first token and the rest. An empty or all-whitespace command
/// yields an empty program name and no arguments.
pub fn parse_command(command: &String) -> (r: (String, Vec<String>))
    ensures
        ({
            let toks = spec_tokens(command@, 0);
            if toks.len() == 0 {
                r.0@ == Seq::<char>::empty() && r.1@.len() == 0
            } else {
                &&& r.0@ == toks[0]
                &&& r.1@.len() == toks.len() - 1
                &&& forall|i: int| 0 <= i < toks.len() - 1 ==> (#[trigger] r.1@[i])@ == toks[i + 1]
            }
        }),
{
    let s: &str = command.as_str();
    let n: usize = s.unicode_len();
    let mut toks: Vec<String> = Vec::new();
    let mut i: usize = 0;
    while i < n
        invariant
            i <= n,
            n == s@.len(),
            s@ == command@,
            spec_tokens(command@, 0) == toks@.map_values(|t: String| t@) + spec_tokens(
                command@,
                i as int,
            ),
        decreases n - i,
    {
        let c = s.get_char(i);
        if is_space_exec(c) {
            i = i + 1;
            continue ;
        }
        if c == '"' {
            match find_close_exec(s, i + 1, n) {
                Option::None => {
                    i = i + 1;
                    continue ;
                },
                Option::Some(_) => {},
            }
        }
        let j = token_end_exec(s, i, n);
        proof {
            lemma_token_end_progress(s@, i as int);
        }
        // strip the quotes off both ends of the span
        let mut a: usize = i;
        let mut b: usize = j;
        while a < b && s.get_char(a) == '"'
            invariant
                i <= a <= b <= j,
                n == s@.len(),
                j <= n,
                trim_quotes(s@.subrange(i as int, j as int)) == trim_quotes(
                    s@.subrange(a as int, b as int),
                ),
            decreases b - a,
        {
            proof {
                assert(s@.subrange(a as int, b as int).drop_first() =~= s@.subrange(
                    a + 1,
                    b as int,
                ));
            }
            a = a + 1;
        }
        while b > a && s.get_char(b - 1) == '"'
            invariant
                i <= a <= b <= j,
                n == s@.len(),
                j <= n,
                a < b ==> s@[a as int] != '"',
                trim_quotes(s@.subrange(i as int, j as int)) == trim_quotes(
                    s@.subrange(a as int, b as int),
                ),
            decreases b - a,
        {
            proof {
                assert(s@.subrange(a as int, b as int).drop_last() =~= s@.subrange(
                    a as int,
                    b - 1,
                ));
            }
            b = b - 1;
        }
        let piece: &str = s.substring_char(a, b);
        let tok: String = String::from_str(piece);
        proof {
            assert(trim_quotes(s@.subrange(a as int, b as int)) == s@.subrange(
                a as int,
                b as int,
            ));
            assert(tok@ == trim_quotes(s@.subrange(i as int, j as int)));
            assert((toks@.push(tok)).map_values(|t: String| t@) =~= toks@.map_values(
                |t: String| t@,
            ).push(tok@));
        }
        toks.push(tok);
        i = j;
    }
    proof {
        assert(spec_tokens(command@, n as int) =~= Seq::<Seq<char>>::empty());
        assert(spec_tokens(command@, 0) =~= toks@.map_values(|t: String| t@));
    }
    let mut args: Vec<String> = toks;
    if args.len() == 0 {
        return (String::new(), args);
    }
    let program: String = args.remove(0);
    proof {
        let toks0 = spec_tokens(command@, 0);
        assert(program@ == toks0[0]);
        assert forall|k: int| 0 <= k < toks0.len() - 1 implies (#[trigger] args@[k])@ == toks0[k
            + 1] by {
        }
    }
    (program, args)
}

/// A token's span advances: when a token starts at `i`, its end lies
/// strictly beyond `i`.
pub proof fn lemma_token_end_progress(s: Seq<char>, i: int)
    requires
        0 <= i < s.len(),
        !is_space(s[i]),
        s[i] == '"' ==> find_close(s, i + 1) is Some,
    ensures
        i < token_end(s, i) <= s.len(),
{
    lemma_token_end_bounds(s, i);
    if s[i] != '"' {
        lemma_token_end_bounds(s, i + 1);
    } else {
        lemma_find_close_props(s, i + 1);
        let c = find_close(s, i + 1)->Some_0;
        lemma_token_end_bounds(s, c + 1);
    }
}

} // verus!

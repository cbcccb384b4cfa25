use vstd::prelude::*;

use crate::text::{chars_of, lemma_strings_view_push, push_char, strings_view};

verus! {

/// Where the tokenizer stands after reading part of a line.
pub struct TokenizerState {
    /// The tokens completed so far.
    pub tokens: Seq<Seq<char>>,
    /// The token being read.
    pub current: Seq<char>,
    /// The previous character was an unescaped backslash.
    pub escape: bool,
    /// Inside a double-quoted token.
    pub in_quotes: bool,
}

pub open spec fn initial_tokenizer() -> TokenizerState {
    TokenizerState { tokens: seq![], current: seq![], escape: false, in_quotes: false }
}

/// One character read by the tokenizer.
pub open spec fn tokenizer_step(st: TokenizerState, c: char) -> TokenizerState {
    if st.escape {
        TokenizerState { current: st.current.push(c), escape: false, ..st }
    } else if c == '\\' {
        TokenizerState { escape: true, ..st }
    } else if st.in_quotes {
        if c == '"' {
            TokenizerState {
                tokens: st.tokens.push(st.current),
                current: seq![],
                in_quotes: false,
                ..st
            }
        } else {
            TokenizerState { current: st.current.push(c), ..st }
        }
    } else if c == '"' {
        TokenizerState { in_quotes: true, ..st }
    } else if c == ' ' {
        if st.current.len() > 0 {
            TokenizerState { tokens: st.tokens.push(st.current), current: seq![], ..st }
        } else {
            st
        }
    } else {
        TokenizerState { current: st.current.push(c), ..st }
    }
}

/// The state after reading all of `s`.
pub open spec fn tokenizer_run(s: Seq<char>) -> TokenizerState
    decreases s.len(),
{
    if s.len() == 0 {
        initial_tokenizer()
    } else {
        tokenizer_step(tokenizer_run(s.drop_last()), s.last())
    }
}

/// The last token at the end of the line: an unclosed quote gets its quote
/// character back in front, a dangling backslash stays as a backslash.
pub open spec fn flushed_token(st: TokenizerState) -> Seq<char> {
    let quoted = if st.in_quotes { seq!['"'] + st.current } else { st.current };
    if st.escape { quoted.push('\\') } else { quoted }
}

pub open spec fn tokenizer_finish(st: TokenizerState) -> Seq<Seq<char>> {
    if flushed_token(st).len() > 0 {
        st.tokens.push(flushed_token(st))
    } else {
        st.tokens
    }
}

/// The tokens of one line: split on unquoted, unescaped spaces, with `"..."`
/// grouping and `\` taking the next character literally.
pub open spec fn tokenize(s: Seq<char>) -> Seq<Seq<char>> {
    tokenizer_finish(tokenizer_run(s))
}

/// Tokenizes `chars[start..]`.
pub fn tokenize_chars(chars: &Vec<char>, start: usize) -> (r: Vec<String>)
    requires
        start <= chars.len(),
    ensures
        strings_view(r@) == tokenize(chars@.subrange(start as int, chars.len() as int)),
{
    let mut tokens: Vec<String> = Vec::new();
    let mut current = String::new();
    let mut escape = false;
    let mut in_quotes = false;
    let mut i: usize = start;
    proof {
        assert(strings_view(tokens@) =~= seq![]);
        assert(chars@.subrange(start as int, i as int) =~= seq![]);
    }
    while i < chars.len()
        invariant
            start <= i <= chars.len(),
            (TokenizerState {
                tokens: strings_view(tokens@),
                current: current@,
                escape,
                in_quotes,
            }) == tokenizer_run(chars@.subrange(start as int, i as int)),
        decreases chars.len() - i,
    {
        let c = chars[i];
        proof {
            let s = chars@.subrange(start as int, i + 1);
            assert(s.drop_last() =~= chars@.subrange(start as int, i as int));
            assert(s.last() == c);
        }
        if escape {
            push_char(&mut current, c);
            escape = false;
        } else if c == '\\' {
            escape = true;
        } else if in_quotes {
            if c == '"' {
                proof { lemma_strings_view_push(tokens@, current); }
                tokens.push(current);
                current = String::new();
                in_quotes = false;
            } else {
                push_char(&mut current, c);
            }
        } else if c == '"' {
            in_quotes = true;
        } else if c == ' ' {
            if !current.as_str().is_empty() {
                proof { lemma_strings_view_push(tokens@, current); }
                tokens.push(current);
                current = String::new();
            }
        } else {
            push_char(&mut current, c);
        }
        i = i + 1;
    }
    let ghost st = TokenizerState {
        tokens: strings_view(tokens@),
        current: current@,
        escape,
        in_quotes,
    };
    let mut last = if in_quotes {
        String::from_str("\"").concat(current.as_str())
    } else {
        current
    };
    proof { reveal_strlit("\""); }
    if escape {
        push_char(&mut last, '\\');
    }
    assert(last@ =~= flushed_token(st));
    if !last.as_str().is_empty() {
        proof { lemma_strings_view_push(tokens@, last); }
        tokens.push(last);
    }
    tokens
}

/// Splits one command line into its arguments.
pub fn parse_command(cmd: &str) -> (r: Vec<String>)
    ensures
        strings_view(r@) == tokenize(cmd@),
{
    let chars = chars_of(cmd);
    assert(chars@.subrange(0, chars@.len() as int) =~= cmd@);
    tokenize_chars(&chars, 0)
}

/// The line holds a character other than a space.
pub open spec fn has_visible(s: Seq<char>) -> bool {
    exists|i: int| 0 <= i < s.len() && s[i] != ' '
}

/// The tokenizer holds something that the end of the line turns into a token.
pub open spec fn holds_text(st: TokenizerState) -> bool {
    st.tokens.len() > 0 || st.current.len() > 0 || st.escape || st.in_quotes
}

proof fn lemma_step_holds_text(st: TokenizerState, c: char)
    requires
        holds_text(st) || c != ' ',
    ensures
        holds_text(tokenizer_step(st, c)),
{
}

proof fn lemma_run_holds_text(s: Seq<char>)
    ensures
        has_visible(s) ==> holds_text(tokenizer_run(s)),
        !has_visible(s) ==> tokenizer_run(s) == initial_tokenizer(),
    decreases s.len(),
{
    if s.len() > 0 {
        let p = s.drop_last();
        lemma_run_holds_text(p);
        if has_visible(p) {
            let i = choose|i: int| 0 <= i < p.len() && p[i] != ' ';
            assert(s[i] != ' ');
            lemma_step_holds_text(tokenizer_run(p), s.last());
        } else if s.last() != ' ' {
            lemma_step_holds_text(tokenizer_run(p), s.last());
        } else {
            assert forall|i: int| 0 <= i < s.len() implies s[i] == ' ' by {
                if i < p.len() {
                    assert(p[i] == s[i]);
                }
            }
        }
    }
}

/// A line gives no token exactly when it holds nothing but spaces.
pub proof fn lemma_no_tokens_iff_spaces(s: Seq<char>)
    ensures
        (tokenize(s).len() == 0) <==> !has_visible(s),
{
    lemma_run_holds_text(s);
}

} // verus!

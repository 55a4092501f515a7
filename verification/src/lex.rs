//! The lexer: a line-oriented scan that splits source text into lexemes,
//! followed by a classification pass that types each lexeme.
//!
//! The scan never fails: unrecognized characters are skipped. The
//! classification pass never drops a lexeme: one it cannot resolve becomes an
//! explicit `Error` token, so the parser fails loudly instead of
//! desynchronizing.
use vstd::prelude::*;

verus! {

use crate::token::{
    Token,
    TokenType,
    TokenV,
    spec_keyword_of,
    keyword_of,
    spec_punctuator_char,
    punctuator_char,
    spec_punctuator_of,
    punctuator_of,
    spec_operator_char,
    operator_char,
    spec_operator_of,
    operator_of,
    spec_comparator_of,
    comparator_of,
    is_comparator_char,
    comparator_char,
};
use crate::util::{
    is_digit_char,
    is_ident_start_char,
    is_word_char,
    digit_char,
    ident_start_char,
    word_char,
    all_digits,
    str_to_chars,
    push_char,
};

// ---------------------------------------------------------------------------
// The model of the scan
// ---------------------------------------------------------------------------
/// The end of the run of identifier characters starting at `j`, bounded by
/// `e`.
pub open spec fn spec_word_end(text: Seq<char>, e: int, j: int) -> int
    decreases e - j,
{
    if 0 <= j < e <= text.len() {
        if is_word_char(text[j]) {
            spec_word_end(text, e, j + 1)
        } else {
            j
        }
    } else {
        j
    }
}

/// The end of the run of digits starting at `j`, bounded by `e`.
pub open spec fn spec_digits_end(text: Seq<char>, e: int, j: int) -> int
    decreases e - j,
{
    if 0 <= j < e <= text.len() {
        if is_digit_char(text[j]) {
            spec_digits_end(text, e, j + 1)
        } else {
            j
        }
    } else {
        j
    }
}

/// The index of the newline that ends the line starting at `i`, or the text
/// length when no newline follows.
pub open spec fn spec_line_end(text: Seq<char>, i: int) -> int
    decreases text.len() - i,
{
    if 0 <= i < text.len() {
        if text[i] == '\n' {
            i
        } else {
            spec_line_end(text, i + 1)
        }
    } else {
        i
    }
}

/// The lexemes of the slice `[i, e)` of one line, in scan order. At each
/// position the first matching class wins: identifier start, digit,
/// punctuator, operator (two-character compounds before single characters),
/// comparator, character-literal delimiter; any other character is skipped.
pub open spec fn sp_scan(text: Seq<char>, i: int, e: int) -> Seq<Seq<char>>
    decreases e - i,
{
    if !(0 <= i < e <= text.len()) {
        Seq::empty()
    } else {
        let c = text[i];
        if is_ident_start_char(c) {
            let j = spec_word_end(text, e, i + 1);
            let j2 = if i < j <= e {
                j
            } else {
                i + 1
            };
            seq![text.subrange(i, j2)] + sp_scan(text, j2, e)
        } else if is_digit_char(c) {
            let j = spec_digits_end(text, e, i + 1);
            let j2 = if i < j <= e {
                j
            } else {
                i + 1
            };
            seq![text.subrange(i, j2)] + sp_scan(text, j2, e)
        } else if spec_punctuator_char(c) is Some {
            seq![text.subrange(i, i + 1)] + sp_scan(text, i + 1, e)
        } else if spec_operator_char(c) is Some {
            if i + 1 < e && c == '=' && text[i + 1] == '=' {
                seq![text.subrange(i, i + 2)] + sp_scan(text, i + 2, e)
            } else if i + 1 < e && ((c == '|' && text[i + 1] == '|') || (c == '&' && text[i + 1]
                == '&') || (c == '!' && text[i + 1] == '=')) {
                seq![text.subrange(i, i + 2)] + sp_scan(text, i + 2, e)
            } else {
                seq![text.subrange(i, i + 1)] + sp_scan(text, i + 1, e)
            }
        } else if is_comparator_char(c) {
            if i + 1 < e && text[i + 1] == '=' {
                seq![text.subrange(i, i + 2)] + sp_scan(text, i + 2, e)
            } else {
                seq![text.subrange(i, i + 1)] + sp_scan(text, i + 1, e)
            }
        } else if c == '\'' {
            if i + 1 >= e {
                seq![text.subrange(i, i + 1)] + sp_scan(text, i + 1, e)
            } else if text[i + 1] == '\'' {
                seq![text.subrange(i, i + 1)] + sp_scan(text, i + 1, e)
            } else if i + 2 >= e {
                seq![text.subrange(i, i + 2)] + sp_scan(text, i + 2, e)
            } else if text[i + 2] == '\'' {
                seq![text.subrange(i, i + 3)] + sp_scan(text, i + 3, e)
            } else {
                seq![text.subrange(i, i + 2)] + sp_scan(text, i + 2, e)
            }
        } else {
            sp_scan(text, i + 1, e)
        }
    }
}

/// The lexemes of the whole source, line by line from position `i`.
pub open spec fn sp_lexemes(text: Seq<char>, i: int) -> Seq<Seq<char>>
    decreases text.len() - i,
{
    if !(0 <= i <= text.len()) {
        Seq::empty()
    } else {
        let e = spec_line_end(text, i);
        let e2 = if i <= e <= text.len() {
            e
        } else {
            i
        };
        sp_scan(text, i, e2) + if e2 + 1 <= text.len() {
            sp_lexemes(text, e2 + 1)
        } else {
            Seq::empty()
        }
    }
}

// ---------------------------------------------------------------------------
// The model of classification
// ---------------------------------------------------------------------------
/// The integer-literal pattern: `0`, or a digit sequence that does not start
/// with `0`.
pub open spec fn is_int_lit_lexeme(l: Seq<char>) -> bool {
    l.len() > 0 && all_digits(l) && (l[0] == '0' ==> l.len() == 1)
}

/// The identifier pattern: a letter or underscore followed by letters,
/// digits and underscores.
pub open spec fn is_identifier_lexeme(l: Seq<char>) -> bool {
    l.len() > 0 && is_ident_start_char(l[0]) && (forall|k: int|
        0 <= k < l.len() ==> is_word_char(#[trigger] l[k]))
}

/// The character-literal pattern: a quote, one character that is not a
/// quote, and a closing quote.
pub open spec fn is_char_lit_lexeme(l: Seq<char>) -> bool {
    l.len() == 3 && l[0] == '\'' && l[1] != '\'' && l[2] == '\''
}

/// The classification of one lexeme. The first matching rule wins: integer
/// literal, keyword or identifier, character literal, punctuator, operator,
/// comparator; anything else becomes an `Error` token.
pub open spec fn spec_classify(l: Seq<char>) -> TokenV {
    if is_int_lit_lexeme(l) {
        TokenV { value: Some(l), token_type: TokenType::IntLit }
    } else if is_identifier_lexeme(l) {
        match spec_keyword_of(l) {
            Some(t) => TokenV { value: Some(l), token_type: t },
            None => TokenV { value: Some(l), token_type: TokenType::Identifier },
        }
    } else if is_char_lit_lexeme(l) {
        TokenV { value: Some(l), token_type: TokenType::Char }
    } else if spec_punctuator_of(l) is Some {
        TokenV { value: Some(l), token_type: spec_punctuator_of(l)->Some_0 }
    } else if spec_operator_of(l) is Some {
        TokenV { value: Some(l), token_type: spec_operator_of(l)->Some_0 }
    } else if spec_comparator_of(l) is Some {
        TokenV { value: Some(l), token_type: spec_comparator_of(l)->Some_0 }
    } else {
        TokenV { value: Some(l), token_type: TokenType::Error }
    }
}

pub open spec fn sp_tokenize(ls: Seq<Seq<char>>) -> Seq<TokenV> {
    ls.map_values(|l: Seq<char>| spec_classify(l))
}

/// The model of the whole lexer: scan, then classify.
pub open spec fn sp_lex(text: Seq<char>) -> Seq<TokenV> {
    sp_tokenize(sp_lexemes(text, 0))
}

// ---------------------------------------------------------------------------
// The scan, executable
// ---------------------------------------------------------------------------
fn push_lexeme(r: &mut Vec<String>, lexeme: String)
    ensures
        final(r).deep_view() == old(r).deep_view().push(lexeme@),
        final(r)@.len() == old(r)@.len() + 1,
{
    let ghost dv = r.deep_view();
    let ghost lv = lexeme@;
    r.push(lexeme);
    proof {
        assert(r.deep_view() =~= dv.push(lv)) by {
            assert(forall|m: int|
                0 <= m < r@.len() ==> r.deep_view()[m] == (#[trigger] r@[m])@);
        }
    }
}

/// Splits source text into raw lexemes, line by line, scanning each line
/// left to right. Whitespace and unrecognized characters are skipped; a
/// malformed character literal at the end of a line is taken as it stands
/// rather than read out of bounds.
pub fn get_lexemes(source: &str) -> (r: Vec<String>)
    ensures
        r.deep_view() == sp_lexemes(source@, 0),
        r@.len() <= source@.len(),
{
    let text = str_to_chars(source);
    let n = text.len();
    let ghost t = source@;
    let mut r: Vec<String> = Vec::new();
    let mut i: usize = 0;
    while i < n
        invariant
            i <= n,
            n == t.len(),
            text@ == t,
            r@.len() <= i,
            r.deep_view() + sp_lexemes(t, i as int) == sp_lexemes(t, 0),
        decreases n - i,
    {
        // Find the end of the current line.
        let mut e: usize = i;
        while e < n && text[e] != '\n'
            invariant
                i <= e <= n,
                n == t.len(),
                text@ == t,
                spec_line_end(t, e as int) == spec_line_end(t, i as int),
            decreases n - e,
        {
            e = e + 1;
        }
        proof {
            assert(spec_line_end(t, i as int) == e as int);
        }
        let ghost line_rest: Seq<Seq<char>> = if e + 1 <= n {
            sp_lexemes(t, e as int + 1)
        } else {
            Seq::empty()
        };
        proof {
            assert(sp_lexemes(t, i as int) == sp_scan(t, i as int, e as int) + line_rest);
        }
        // Scan the line.
        let mut j: usize = i;
        while j < e
            invariant
                i <= j <= e <= n,
                n == t.len(),
                text@ == t,
                r@.len() <= j,
                r.deep_view() + sp_scan(t, j as int, e as int) + line_rest == sp_lexemes(t, 0),
            decreases e - j,
        {
            let ghost dv = r.deep_view();
            let ghost scan_here = sp_scan(t, j as int, e as int);
            let c = text[j];
            if ident_start_char(c) {
                let mut lexeme = String::new();
                push_char(&mut lexeme, c);
                let mut k: usize = j + 1;
                while k < e && word_char(text[k])
                    invariant
                        j < k <= e <= n,
                        n == t.len(),
                        text@ == t,
                        lexeme@ == t.subrange(j as int, k as int),
                        spec_word_end(t, e as int, k as int) == spec_word_end(
                            t,
                            e as int,
                            j as int + 1,
                        ),
                    decreases e - k,
                {
                    push_char(&mut lexeme, text[k]);
                    k = k + 1;
                    proof {
                        assert(lexeme@ =~= t.subrange(j as int, k as int));
                    }
                }
                proof {
                    assert(spec_word_end(t, e as int, j as int + 1) == k as int);
                    assert(scan_here == seq![t.subrange(j as int, k as int)] + sp_scan(
                        t,
                        k as int,
                        e as int,
                    ));
                }
                push_lexeme(&mut r, lexeme);
                j = k;
                proof {
                    assert(r.deep_view() + sp_scan(t, j as int, e as int) + line_rest
                        =~= dv + scan_here + line_rest);
                }
            } else if digit_char(c) {
                let mut lexeme = String::new();
                push_char(&mut lexeme, c);
                let mut k: usize = j + 1;
                while k < e && digit_char(text[k])
                    invariant
                        j < k <= e <= n,
                        n == t.len(),
                        text@ == t,
                        lexeme@ == t.subrange(j as int, k as int),
                        spec_digits_end(t, e as int, k as int) == spec_digits_end(
                            t,
                            e as int,
                            j as int + 1,
                        ),
                    decreases e - k,
                {
                    push_char(&mut lexeme, text[k]);
                    k = k + 1;
                    proof {
                        assert(lexeme@ =~= t.subrange(j as int, k as int));
                    }
                }
                proof {
                    assert(spec_digits_end(t, e as int, j as int + 1) == k as int);
                    assert(scan_here == seq![t.subrange(j as int, k as int)] + sp_scan(
                        t,
                        k as int,
                        e as int,
                    ));
                }
                push_lexeme(&mut r, lexeme);
                j = k;
                proof {
                    assert(r.deep_view() + sp_scan(t, j as int, e as int) + line_rest
                        =~= dv + scan_here + line_rest);
                }
            } else if punctuator_char(c).is_some() {
                let mut lexeme = String::new();
                push_char(&mut lexeme, c);
                proof {
                    assert(lexeme@ =~= t.subrange(j as int, j as int + 1));
                }
                push_lexeme(&mut r, lexeme);
                j = j + 1;
                proof {
                    assert(r.deep_view() + sp_scan(t, j as int, e as int) + line_rest
                        =~= dv + scan_here + line_rest);
                }
            } else if operator_char(c).is_some() {
                let two: bool = if j + 1 < e {
                    let p = text[j + 1];
                    (c == '=' && p == '=') || (c == '|' && p == '|') || (c == '&' && p == '&') || (c
                        == '!' && p == '=')
                } else {
                    false
                };
                let mut lexeme = String::new();
                push_char(&mut lexeme, c);
                if two {
                    push_char(&mut lexeme, text[j + 1]);
                    proof {
                        assert(lexeme@ =~= t.subrange(j as int, j as int + 2));
                    }
                    push_lexeme(&mut r, lexeme);
                    j = j + 2;
                } else {
                    proof {
                        assert(lexeme@ =~= t.subrange(j as int, j as int + 1));
                    }
                    push_lexeme(&mut r, lexeme);
                    j = j + 1;
                }
                proof {
                    assert(r.deep_view() + sp_scan(t, j as int, e as int) + line_rest
                        =~= dv + scan_here + line_rest);
                }
            } else if comparator_char(c) {
                let two: bool = j + 1 < e && text[j + 1] == '=';
                let mut lexeme = String::new();
                push_char(&mut lexeme, c);
                if two {
                    push_char(&mut lexeme, text[j + 1]);
                    proof {
                        assert(lexeme@ =~= t.subrange(j as int, j as int + 2));
                    }
                    push_lexeme(&mut r, lexeme);
                    j = j + 2;
                } else {
                    proof {
                        assert(lexeme@ =~= t.subrange(j as int, j as int + 1));
                    }
                    push_lexeme(&mut r, lexeme);
                    j = j + 1;
                }
                proof {
                    assert(r.deep_view() + sp_scan(t, j as int, e as int) + line_rest
                        =~= dv + scan_here + line_rest);
                }
            } else if c == '\'' {
                let mut lexeme = String::new();
                push_char(&mut lexeme, c);
                if j + 1 >= e || text[j + 1] == '\'' {
                    proof {
                        assert(lexeme@ =~= t.subrange(j as int, j as int + 1));
                    }
                    push_lexeme(&mut r, lexeme);
                    j = j + 1;
                } else {
                    push_char(&mut lexeme, text[j + 1]);
                    if j + 2 < e && text[j + 2] == '\'' {
                        push_char(&mut lexeme, text[j + 2]);
                        proof {
                            assert(lexeme@ =~= t.subrange(j as int, j as int + 3));
                        }
                        push_lexeme(&mut r, lexeme);
                        j = j + 3;
                    } else {
                        proof {
                            assert(lexeme@ =~= t.subrange(j as int, j as int + 2));
                        }
                        push_lexeme(&mut r, lexeme);
                        j = j + 2;
                    }
                }
                proof {
                    assert(r.deep_view() + sp_scan(t, j as int, e as int) + line_rest
                        =~= dv + scan_here + line_rest);
                }
            } else {
                j = j + 1;
            }
        }
        proof {
            assert(sp_scan(t, e as int, e as int) =~= Seq::<Seq<char>>::empty());
            assert(r.deep_view() + line_rest =~= r.deep_view() + sp_scan(t, e as int, e as int)
                + line_rest);
        }
        if e < n {
            i = e + 1;
        } else {
            i = n;
            proof {
                assert(sp_lexemes(t, n as int) =~= Seq::<Seq<char>>::empty());
                assert(r.deep_view() + sp_lexemes(t, n as int) =~= r.deep_view());
            }
        }
    }
    proof {
        assert(sp_lexemes(t, n as int) =~= Seq::<Seq<char>>::empty());
        assert(r.deep_view() =~= r.deep_view() + sp_lexemes(t, n as int));
    }
    r
}

/// Runs the whole lexer on one piece of source text: scan, then classify.
pub fn test_lexer(lex_this: &str) -> (r: Vec<Token>)
    ensures
        r.deep_view() == sp_lex(lex_this@),
        r@.len() <= lex_this@.len(),
{
    let lexemes = get_lexemes(lex_this);
    tokenize_lexemes(lexemes)
}

// ---------------------------------------------------------------------------
// Classification, executable
// ---------------------------------------------------------------------------
fn int_lit_lexeme(l: &str) -> (r: bool)
    ensures
        r == is_int_lit_lexeme(l@),
{
    let n = l.unicode_len();
    if n == 0 {
        return false;
    }
    if l.get_char(0) == '0' && n != 1 {
        return false;
    }
    let mut k: usize = 0;
    while k < n
        invariant
            k <= n,
            n == l@.len(),
            forall|m: int| 0 <= m < k ==> is_digit_char(#[trigger] l@[m]),
        decreases n - k,
    {
        if !digit_char(l.get_char(k)) {
            return false;
        }
        k = k + 1;
    }
    true
}

fn identifier_lexeme(l: &str) -> (r: bool)
    ensures
        r == is_identifier_lexeme(l@),
{
    let n = l.unicode_len();
    if n == 0 {
        return false;
    }
    if !ident_start_char(l.get_char(0)) {
        return false;
    }
    let mut k: usize = 0;
    while k < n
        invariant
            k <= n,
            n == l@.len(),
            forall|m: int| 0 <= m < k ==> is_word_char(#[trigger] l@[m]),
        decreases n - k,
    {
        if !word_char(l.get_char(k)) {
            return false;
        }
        k = k + 1;
    }
    true
}

fn char_lit_lexeme(l: &str) -> (r: bool)
    ensures
        r == is_char_lit_lexeme(l@),
{
    if l.unicode_len() != 3 {
        return false;
    }
    l.get_char(0) == '\'' && l.get_char(1) != '\'' && l.get_char(2) == '\''
}

/// Classifies one lexeme into a typed token.
pub fn classify_lexeme(l: &str) -> (r: Token)
    ensures
        r@ == spec_classify(l@),
{
    let value = Some(String::from_str(l));
    if int_lit_lexeme(l) {
        Token { value, token_type: TokenType::IntLit }
    } else if identifier_lexeme(l) {
        match keyword_of(l) {
            Some(t) => Token { value, token_type: t },
            None => Token { value, token_type: TokenType::Identifier },
        }
    } else if char_lit_lexeme(l) {
        Token { value, token_type: TokenType::Char }
    } else {
        let p = punctuator_of(l);
        match p {
            Some(t) => Token { value, token_type: t },
            None => {
                let o = operator_of(l);
                match o {
                    Some(t) => Token { value, token_type: t },
                    None => {
                        let c = comparator_of(l);
                        match c {
                            Some(t) => Token { value, token_type: t },
                            None => Token { value, token_type: TokenType::Error },
                        }
                    },
                }
            },
        }
    }
}

/// Classifies each lexeme in order. A lexeme that no table resolves becomes
/// an explicit `Error` token rather than being dropped.
pub fn tokenize_lexemes(lexemes: Vec<String>) -> (r: Vec<Token>)
    ensures
        r.deep_view() == sp_tokenize(lexemes.deep_view()),
        r@.len() == lexemes@.len(),
{
    let mut r: Vec<Token> = Vec::new();
    let mut k: usize = 0;
    while k < lexemes.len()
        invariant
            k <= lexemes@.len(),
            r@.len() == k,
            forall|m: int|
                0 <= m < k ==> (#[trigger] r@[m])@ == spec_classify(lexemes.deep_view()[m]),
        decreases lexemes@.len() - k,
    {
        let t = classify_lexeme(lexemes[k].as_str());
        proof {
            assert(lexemes.deep_view()[k as int] == lexemes@[k as int]@);
        }
        r.push(t);
        k = k + 1;
    }
    proof {
        assert(r.deep_view() =~= sp_tokenize(lexemes.deep_view())) by {
            assert(forall|m: int|
                0 <= m < r@.len() ==> r.deep_view()[m] == (#[trigger] r@[m])@);
        }
    }
    r
}

} // verus!

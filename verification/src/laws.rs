//! General laws of the scanner, stated over its specification and
//! proved once for every source string.

use vstd::prelude::*;

use crate::error::ScanErrorView;
use crate::scanner::TokenView;
use crate::scanner::block_comment_close;
use crate::scanner::digits_end;
use crate::scanner::is_digit;
use crate::scanner::is_identifier_char;
use crate::scanner::lemma_search_bounds;
use crate::scanner::lemma_spec_step_bounds;
use crate::scanner::line_end;
use crate::scanner::opt_seq;
use crate::scanner::quote_end;
use crate::scanner::single_char_kind;
use crate::scanner::ident_end;
use crate::scanner::spec_scan_errors;
use crate::scanner::spec_scan_from;
use crate::scanner::spec_scan_tokens;
use crate::scanner::spec_step;

verus! {

/// Every scan terminates — each step of [`spec_step`] consumes at
/// least one character, and the scanning loops carry `decreases`
/// measures — and ends in exactly one end-of-input token: whatever the
/// source, the token sequence a fresh scan produces is nonempty and
/// its last token has kind `EOF`, an empty lexeme and no payload.
pub proof fn lemma_scan_ends_with_eof(src: Seq<char>)
    ensures
        spec_scan_tokens(src).len() > 0,
        spec_scan_tokens(src).last().token_type is EOF,
        spec_scan_tokens(src).last().lexeme == Seq::<char>::empty(),
        spec_scan_tokens(src).last().literal is NoLiteral,
{
    let s = spec_scan_from(src, 0, 1);
    assert(spec_scan_tokens(src).last() == (s.tokens + seq![
        crate::scanner::eof_token(s.line),
    ]).last());
}

/// Scanning is deterministic: the tokens and the errors a fresh scan
/// is specified to produce are functions of the source text alone, so
/// two fresh scans over equal sources agree on both — running the
/// scanner twice from fresh state yields identical results.
pub proof fn lemma_scan_deterministic(a: Seq<char>, b: Seq<char>)
    requires
        a == b,
    ensures
        spec_scan_tokens(a) == spec_scan_tokens(b),
        spec_scan_errors(a) == spec_scan_errors(b),
{
}

/// The characters of `src` from `pos` on that carry lexical meaning:
/// everything except whitespace and newlines, comments, the quotes
/// around string literals, characters no token can start with, and
/// the discarded tail of an unterminated string.
pub open spec fn meaningful_chars(src: Seq<char>, pos: int) -> Seq<char>
    decreases src.len() - pos,
    via meaningful_chars_decreases
{
    if pos < 0 || pos >= src.len() {
        Seq::empty()
    } else {
        let c = src[pos];
        let len = src.len() as int;
        if c == '\n' || c == ' ' || c == '\r' || c == '\t' {
            meaningful_chars(src, pos + 1)
        } else if single_char_kind(c) is Some {
            src.subrange(pos, pos + 1) + meaningful_chars(src, pos + 1)
        } else if c == '!' || c == '=' || c == '<' || c == '>' {
            if pos + 1 < len && src[pos + 1] == '=' {
                src.subrange(pos, pos + 2) + meaningful_chars(src, pos + 2)
            } else {
                src.subrange(pos, pos + 1) + meaningful_chars(src, pos + 1)
            }
        } else if c == '/' {
            if pos + 1 < len && src[pos + 1] == '/' {
                meaningful_chars(src, line_end(src, pos + 2))
            } else if pos + 1 < len && src[pos + 1] == '*' {
                let close = block_comment_close(src, pos + 2);
                if close < len {
                    meaningful_chars(src, close + 2)
                } else {
                    Seq::empty()
                }
            } else {
                src.subrange(pos, pos + 1) + meaningful_chars(src, pos + 1)
            }
        } else if c == '"' {
            let q = quote_end(src, pos + 1);
            if q < len {
                src.subrange(pos + 1, q) + meaningful_chars(src, q + 1)
            } else {
                Seq::empty()
            }
        } else if is_digit(c) {
            let j = digits_end(src, pos + 1);
            let k = if j + 1 < len && src[j] == '.' && is_digit(src[j + 1]) {
                digits_end(src, j + 1)
            } else {
                j
            };
            src.subrange(pos, k) + meaningful_chars(src, k)
        } else if is_identifier_char(c) {
            let j = ident_end(src, pos + 1);
            src.subrange(pos, j) + meaningful_chars(src, j)
        } else {
            meaningful_chars(src, pos + 1)
        }
    }
}

#[via_fn]
proof fn meaningful_chars_decreases(src: Seq<char>, pos: int) {
    if 0 <= pos < src.len() {
        lemma_spec_step_bounds(src, pos, 0);
    }
}

/// The lexemes of a token sequence, concatenated in order.
pub open spec fn concat_lexemes(ts: Seq<TokenView>) -> Seq<char>
    decreases ts.len(),
{
    if ts.len() == 0 {
        Seq::empty()
    } else {
        ts[0].lexeme + concat_lexemes(ts.drop_first())
    }
}

proof fn lemma_concat_lexemes_cons(t: TokenView, r: Seq<TokenView>)
    ensures
        concat_lexemes(seq![t] + r) == t.lexeme + concat_lexemes(r),
{
    assert((seq![t] + r)[0] == t);
    assert((seq![t] + r).drop_first() =~= r);
}

proof fn lemma_concat_lexemes_nil(r: Seq<TokenView>)
    ensures
        concat_lexemes(Seq::<TokenView>::empty() + r) == concat_lexemes(r),
{
    assert(Seq::<TokenView>::empty() + r =~= r);
}

proof fn lemma_concat_lexemes_snoc(ts: Seq<TokenView>, t: TokenView)
    ensures
        concat_lexemes(ts + seq![t]) == concat_lexemes(ts) + t.lexeme,
    decreases ts.len(),
{
    if ts.len() == 0 {
        assert(ts + seq![t] =~= seq![t]);
        lemma_concat_lexemes_cons(t, Seq::empty());
        assert(t.lexeme + Seq::<char>::empty() =~= t.lexeme);
        assert(Seq::<char>::empty() + t.lexeme =~= t.lexeme);
    } else {
        assert((ts + seq![t])[0] == ts[0]);
        assert((ts + seq![t]).drop_first() =~= ts.drop_first() + seq![t]);
        lemma_concat_lexemes_snoc(ts.drop_first(), t);
        assert(ts[0].lexeme + (concat_lexemes(ts.drop_first()) + t.lexeme) =~= (ts[0].lexeme
            + concat_lexemes(ts.drop_first())) + t.lexeme);
    }
}

/// Concatenating the lexemes of everything the scanner emits from
/// `pos` on yields exactly the meaningful characters of the source
/// from `pos` on, whatever the line counter stands at.
pub proof fn lemma_lexemes_are_meaningful_chars(src: Seq<char>, pos: int, line: int)
    ensures
        concat_lexemes(spec_scan_from(src, pos, line).tokens) == meaningful_chars(src, pos),
    decreases src.len() - pos,
{
    if 0 <= pos < src.len() {
        lemma_spec_step_bounds(src, pos, line);
        let st = spec_step(src, pos, line);
        let rest = spec_scan_from(src, st.pos, st.line);
        lemma_lexemes_are_meaningful_chars(src, st.pos, st.line);
        match st.token {
            Some(t) => {
                lemma_concat_lexemes_cons(t, rest.tokens);
            },
            None => {
                lemma_concat_lexemes_nil(rest.tokens);
            },
        }
    }
}

/// For a source with no lexical errors, concatenating the lexemes of
/// the tokens a fresh scan produces, in order, reproduces exactly the
/// meaningful characters of the source: whitespace and comments are
/// strictly omitted, the quotes around string literals are stripped,
/// and nothing else is dropped or duplicated. The terminal
/// end-of-input token contributes its empty lexeme.
pub proof fn lemma_error_free_scan_covers_source(src: Seq<char>)
    requires
        spec_scan_errors(src) == Seq::<ScanErrorView>::empty(),
    ensures
        concat_lexemes(spec_scan_tokens(src)) == meaningful_chars(src, 0),
{
    let s = spec_scan_from(src, 0, 1);
    lemma_lexemes_are_meaningful_chars(src, 0, 1);
    lemma_concat_lexemes_snoc(s.tokens, crate::scanner::eof_token(s.line));
    assert(concat_lexemes(s.tokens) + Seq::<char>::empty() =~= concat_lexemes(s.tokens));
}

} // verus!

//! Dispatch-table extraction from a unit's entry-point source text.
//!
//! The extractor locates the entry-point function, then the dispatch
//! construct invoked inside it, and collects the string-literal method
//! names that appear as match keys of the construct's block argument.
//! It is a bounded scan over the known construct shape, not a language
//! frontend: the scanner only understands whitespace, comments, string
//! and character literals, identifiers, numbers and bracket delimiters,
//! which is enough to walk over surrounding code of arbitrary shape.

use vstd::prelude::*;

use crate::bytes::bytes_eq;
use crate::bytes::lit;
use crate::bytes::copy_vec;
use crate::bytes::lit_bytes;
use crate::bytes::sub_vec;

verus! {

// Byte values the scanner distinguishes.
pub const B_LF: u8 = 10; // line feed
pub const B_QUOTE: u8 = 34; // double quote
pub const B_BANG: u8 = 33; // exclamation mark
pub const B_TICK: u8 = 39; // single quote
pub const B_STAR: u8 = 42; // asterisk
pub const B_SLASH: u8 = 47; // forward slash
pub const B_BSLASH: u8 = 92; // backslash
pub const B_LPAREN: u8 = 40;
pub const B_RPAREN: u8 = 41;
pub const B_LBRACKET: u8 = 91;
pub const B_RBRACKET: u8 = 93;
pub const B_LBRACE: u8 = 123;
pub const B_RBRACE: u8 = 125;

/// Whitespace byte: space, tab, carriage return or line feed.
pub open spec fn is_ws(b: u8) -> bool {
    b == 32 || b == 9 || b == 13 || b == 10
}

/// ASCII decimal digit.
pub open spec fn is_digit(b: u8) -> bool {
    48 <= b <= 57
}

/// Byte that may start an identifier: a letter or an underscore.
pub open spec fn is_ident_start(b: u8) -> bool {
    (65 <= b <= 90) || (97 <= b <= 122) || b == 95
}

/// Byte that may continue an identifier.
pub open spec fn is_ident_cont(b: u8) -> bool {
    is_ident_start(b) || is_digit(b)
}

/// Opening bracket delimiter.
pub open spec fn is_open_delim(b: u8) -> bool {
    b == B_LPAREN || b == B_LBRACKET || b == B_LBRACE
}

/// Closing bracket delimiter.
pub open spec fn is_close_delim(b: u8) -> bool {
    b == B_RPAREN || b == B_RBRACKET || b == B_RBRACE
}

/// The closing delimiter that matches an opening one.
pub open spec fn close_of(b: u8) -> u8 {
    if b == B_LPAREN {
        B_RPAREN
    } else if b == B_LBRACKET {
        B_RBRACKET
    } else {
        B_RBRACE
    }
}

/// One token of the scan: an identifier (with its bytes), a string
/// literal (with its bytes, quotes stripped, no escape processing),
/// a bracket delimiter, a number, or any other single byte.
pub enum Tok {
    Ident(Vec<u8>),
    StrLit(Vec<u8>),
    Open(u8),
    Close(u8),
    Punct(u8),
    Num,
}

/// The model of a token: the same shape over byte sequences.
pub enum TokModel {
    Ident(Seq<u8>),
    StrLit(Seq<u8>),
    Open(u8),
    Close(u8),
    Punct(u8),
    Num,
}

impl View for Tok {
    type V = TokModel;

    open spec fn view(&self) -> TokModel {
        match self {
            Tok::Ident(v) => TokModel::Ident(v@),
            Tok::StrLit(v) => TokModel::StrLit(v@),
            Tok::Open(b) => TokModel::Open(*b),
            Tok::Close(b) => TokModel::Close(*b),
            Tok::Punct(b) => TokModel::Punct(*b),
            Tok::Num => TokModel::Num,
        }
    }
}

/// The models of a token sequence.
pub open spec fn views_of(toks: Seq<Tok>) -> Seq<TokModel> {
    toks.map(|i: int, t: Tok| t@)
}

/// First index at or after `i` whose byte does not continue an
/// identifier (or the end of the text).
pub open spec fn scan_ident_end(s: Seq<u8>, i: int) -> int
    decreases s.len() - i,
{
    if i < s.len() && is_ident_cont(s[i]) {
        scan_ident_end(s, i + 1)
    } else {
        i
    }
}

/// First index at or after `i` that holds a line feed (or the end of
/// the text): the end of a line comment.
pub open spec fn scan_line_end(s: Seq<u8>, i: int) -> int
    decreases s.len() - i,
{
    if i < s.len() && s[i] != B_LF {
        scan_line_end(s, i + 1)
    } else {
        i
    }
}

/// Index just past the terminator of a block comment open at nesting
/// `depth`, scanning from `i`; `None` if the comment never closes.
pub open spec fn scan_block_end(s: Seq<u8>, i: int, depth: nat) -> Option<int>
    decreases s.len() - i,
{
    if i >= s.len() {
        None
    } else if i + 1 < s.len() && s[i] == B_STAR && s[i + 1] == B_SLASH {
        if depth == 1 {
            Some(i + 2)
        } else {
            scan_block_end(s, i + 2, (depth - 1) as nat)
        }
    } else if i + 1 < s.len() && s[i] == B_SLASH && s[i + 1] == B_STAR {
        scan_block_end(s, i + 2, depth + 1)
    } else {
        scan_block_end(s, i + 1, depth)
    }
}

/// Index just past the closing quote of a string literal whose body
/// starts at `i`; a backslash skips the following byte; `None` if the
/// literal never closes.
pub open spec fn scan_str_end(s: Seq<u8>, i: int) -> Option<int>
    decreases s.len() - i,
{
    if i >= s.len() {
        None
    } else if s[i] == B_QUOTE {
        Some(i + 1)
    } else if s[i] == B_BSLASH {
        if i + 1 < s.len() {
            scan_str_end(s, i + 2)
        } else {
            None
        }
    } else {
        scan_str_end(s, i + 1)
    }
}

proof fn lemma_scan_ident_end(s: Seq<u8>, i: int)
    requires
        i <= s.len(),
    ensures
        i <= scan_ident_end(s, i) <= s.len(),
    decreases s.len() - i,
{
    if i < s.len() && is_ident_cont(s[i]) {
        lemma_scan_ident_end(s, i + 1);
    }
}

proof fn lemma_scan_line_end(s: Seq<u8>, i: int)
    requires
        i <= s.len(),
    ensures
        i <= scan_line_end(s, i) <= s.len(),
    decreases s.len() - i,
{
    if i < s.len() && s[i] != B_LF {
        lemma_scan_line_end(s, i + 1);
    }
}

proof fn lemma_scan_block_end(s: Seq<u8>, i: int, depth: nat)
    requires
        i <= s.len(),
    ensures
        scan_block_end(s, i, depth) matches Some(j) ==> i + 2 <= j <= s.len(),
    decreases s.len() - i,
{
    if i >= s.len() {
    } else if i + 1 < s.len() && s[i] == B_STAR && s[i + 1] == B_SLASH {
        if depth != 1 {
            lemma_scan_block_end(s, i + 2, (depth - 1) as nat);
        }
    } else if i + 1 < s.len() && s[i] == B_SLASH && s[i + 1] == B_STAR {
        lemma_scan_block_end(s, i + 2, depth + 1);
    } else {
        lemma_scan_block_end(s, i + 1, depth);
    }
}

proof fn lemma_scan_str_end(s: Seq<u8>, i: int)
    requires
        i <= s.len(),
    ensures
        scan_str_end(s, i) matches Some(j) ==> i + 1 <= j <= s.len(),
    decreases s.len() - i,
{
    if i >= s.len() {
    } else if s[i] == B_QUOTE {
    } else if s[i] == B_BSLASH {
        if i + 1 < s.len() {
            lemma_scan_str_end(s, i + 2);
        }
    } else {
        lemma_scan_str_end(s, i + 1);
    }
}

/// The token sequence of the text from index `i` on; `None` if a string
/// literal or a block comment never closes.
pub open spec fn lex_from(s: Seq<u8>, i: int) -> Option<Seq<TokModel>>
    decreases s.len() - i
    via lex_from_dec
{
    if i >= s.len() {
        Some(Seq::empty())
    } else if is_ws(s[i]) {
        lex_from(s, i + 1)
    } else if i + 1 < s.len() && s[i] == B_SLASH && s[i + 1] == B_SLASH {
        lex_from(s, scan_line_end(s, i + 2))
    } else if i + 1 < s.len() && s[i] == B_SLASH && s[i + 1] == B_STAR {
        match scan_block_end(s, i + 2, 1) {
            Some(j) => lex_from(s, j),
            None => None,
        }
    } else if s[i] == B_QUOTE {
        match scan_str_end(s, i + 1) {
            Some(j) => match lex_from(s, j) {
                Some(rest) => Some(seq![TokModel::StrLit(s.subrange(i + 1, j - 1))] + rest),
                None => None,
            },
            None => None,
        }
    } else if is_ident_start(s[i]) {
        let j = scan_ident_end(s, i);
        match lex_from(s, j) {
            Some(rest) => Some(seq![TokModel::Ident(s.subrange(i, j))] + rest),
            None => None,
        }
    } else if is_digit(s[i]) {
        let j = scan_ident_end(s, i);
        match lex_from(s, j) {
            Some(rest) => Some(seq![TokModel::Num] + rest),
            None => None,
        }
    } else if s[i] == B_TICK {
        if i + 2 < s.len() && s[i + 1] != B_BSLASH && s[i + 2] == B_TICK {
            lex_from(s, i + 3)
        } else if i + 3 < s.len() && s[i + 1] == B_BSLASH && s[i + 3] == B_TICK {
            lex_from(s, i + 4)
        } else {
            match lex_from(s, i + 1) {
                Some(rest) => Some(seq![TokModel::Punct(B_TICK)] + rest),
                None => None,
            }
        }
    } else if is_open_delim(s[i]) {
        match lex_from(s, i + 1) {
            Some(rest) => Some(seq![TokModel::Open(s[i])] + rest),
            None => None,
        }
    } else if is_close_delim(s[i]) {
        match lex_from(s, i + 1) {
            Some(rest) => Some(seq![TokModel::Close(s[i])] + rest),
            None => None,
        }
    } else {
        match lex_from(s, i + 1) {
            Some(rest) => Some(seq![TokModel::Punct(s[i])] + rest),
            None => None,
        }
    }
}

#[via_fn]
proof fn lex_from_dec(s: Seq<u8>, i: int) {
    if i < s.len() {
        if is_ident_start(s[i]) || is_digit(s[i]) {
            lemma_scan_ident_end(s, i + 1);
            assert(scan_ident_end(s, i) == scan_ident_end(s, i + 1));
        }
        if i + 1 < s.len() && s[i] == B_SLASH && s[i + 1] == B_SLASH {
            lemma_scan_line_end(s, i + 2);
        }
        if i + 1 < s.len() && s[i] == B_SLASH && s[i + 1] == B_STAR {
            lemma_scan_block_end(s, i + 2, 1);
        }
        if s[i] == B_QUOTE {
            lemma_scan_str_end(s, i + 1);
        }
    }
}

/// Prepends `pre` to the tokens of `rest`, propagating a failed scan.
pub open spec fn lex_concat(pre: Seq<TokModel>, rest: Option<Seq<TokModel>>) -> Option<
    Seq<TokModel>,
> {
    match rest {
        Some(t) => Some(pre + t),
        None => None,
    }
}

fn scan_ident_end_exec(s: &[u8], i: usize) -> (j: usize)
    requires
        i <= s@.len(),
    ensures
        j == scan_ident_end(s@, i as int),
        i <= j <= s@.len(),
{
    let mut j: usize = i;
    while j < s.len() && (s[j] == 95 || (65 <= s[j] && s[j] <= 90) || (97 <= s[j] && s[j] <= 122)
        || (48 <= s[j] && s[j] <= 57))
        invariant
            i <= j <= s@.len(),
            scan_ident_end(s@, i as int) == scan_ident_end(s@, j as int),
        decreases s@.len() - j,
    {
        j += 1;
    }
    j
}

fn scan_line_end_exec(s: &[u8], i: usize) -> (j: usize)
    requires
        i <= s@.len(),
    ensures
        j == scan_line_end(s@, i as int),
        i <= j <= s@.len(),
{
    let mut j: usize = i;
    while j < s.len() && s[j] != B_LF
        invariant
            i <= j <= s@.len(),
            scan_line_end(s@, i as int) == scan_line_end(s@, j as int),
        decreases s@.len() - j,
    {
        j += 1;
    }
    j
}

fn scan_block_end_exec(s: &[u8], i: usize) -> (r: Option<usize>)
    requires
        i <= s@.len(),
    ensures
        match r {
            Some(j) => scan_block_end(s@, i as int, 1) == Some(j as int) && i + 2 <= j <= s@.len(),
            None => scan_block_end(s@, i as int, 1) is None,
        },
{
    let mut j: usize = i;
    let mut depth: usize = 1;
    while j < s.len()
        invariant
            i <= j <= s@.len(),
            1 <= depth <= j - i + 1,
            scan_block_end(s@, i as int, 1) == scan_block_end(s@, j as int, depth as nat),
        decreases s@.len() - j,
    {
        if j + 1 < s.len() && s[j] == B_STAR && s[j + 1] == B_SLASH {
            if depth == 1 {
                return Some(j + 2);
            }
            depth -= 1;
            j += 2;
        } else if j + 1 < s.len() && s[j] == B_SLASH && s[j + 1] == B_STAR {
            depth += 1;
            j += 2;
        } else {
            j += 1;
        }
    }
    None
}

fn scan_str_end_exec(s: &[u8], i: usize) -> (r: Option<usize>)
    requires
        i <= s@.len(),
    ensures
        match r {
            Some(j) => scan_str_end(s@, i as int) == Some(j as int) && i + 1 <= j <= s@.len(),
            None => scan_str_end(s@, i as int) is None,
        },
{
    let mut j: usize = i;
    while j < s.len()
        invariant
            i <= j <= s@.len(),
            scan_str_end(s@, i as int) == scan_str_end(s@, j as int),
        decreases s@.len() - j,
    {
        if s[j] == B_QUOTE {
            return Some(j + 1);
        }
        if s[j] == B_BSLASH {
            if j + 1 < s.len() {
                j += 2;
            } else {
                return None;
            }
        } else {
            j += 1;
        }
    }
    None
}

/// Scans the whole text into tokens; `None` if a string literal or a
/// block comment never closes.
pub fn tokenize(s: &[u8]) -> (r: Option<Vec<Tok>>)
    ensures
        match r {
            Some(toks) => lex_from(s@, 0) == Some(views_of(toks@)),
            None => lex_from(s@, 0) is None,
        },
{
    let mut toks: Vec<Tok> = Vec::new();
    let mut i: usize = 0;
    while i < s.len()
        invariant
            i <= s@.len(),
            lex_from(s@, 0) == lex_concat(views_of(toks@), lex_from(s@, i as int)),
        decreases s@.len() - i,
    {
        let ghost iold = i as int;
        let ghost pre = views_of(toks@);
        let b = s[i];
        if b == 32 || b == 9 || b == 13 || b == 10 {
            proof {
                assert(lex_from(s@, iold) == lex_from(s@, iold + 1));
            }
            i += 1;
        } else if i + 1 < s.len() && b == B_SLASH && s[i + 1] == B_SLASH {
            let j = scan_line_end_exec(s, i + 2);
            proof {
                assert(lex_from(s@, iold) == lex_from(s@, j as int));
            }
            i = j;
        } else if i + 1 < s.len() && b == B_SLASH && s[i + 1] == B_STAR {
            match scan_block_end_exec(s, i + 2) {
                Some(j) => {
                    proof {
                        assert(lex_from(s@, iold) == lex_from(s@, j as int));
                    }
                    i = j;
                },
                None => {
                    proof {
                        assert(lex_from(s@, iold) is None);
                    }
                    return None;
                },
            }
        } else if b == B_QUOTE {
            match scan_str_end_exec(s, i + 1) {
                Some(j) => {
                    let ghost tok = TokModel::StrLit(s@.subrange(iold + 1, j as int - 1));
                    proof {
                        assert(lex_from(s@, iold) == lex_concat(seq![tok], lex_from(s@, j as int)));
                        lemma_concat_push(pre, tok, lex_from(s@, j as int));
                    }
                    let content = sub_vec(s, i + 1, j - 1);
                    toks.push(Tok::StrLit(content));
                    proof {
                        assert(views_of(toks@) =~= pre.push(tok));
                    }
                    i = j;
                },
                None => {
                    proof {
                        assert(lex_from(s@, iold) is None);
                    }
                    return None;
                },
            }
        } else if b == 95 || (65 <= b && b <= 90) || (97 <= b && b <= 122) {
            let j = scan_ident_end_exec(s, i);
            let ghost tok = TokModel::Ident(s@.subrange(iold, j as int));
            proof {
                lemma_scan_ident_end(s@, iold + 1);
                assert(scan_ident_end(s@, iold) == scan_ident_end(s@, iold + 1));
                assert(lex_from(s@, iold) == lex_concat(seq![tok], lex_from(s@, j as int)));
                lemma_concat_push(pre, tok, lex_from(s@, j as int));
            }
            let content = sub_vec(s, i, j);
            toks.push(Tok::Ident(content));
            proof {
                assert(views_of(toks@) =~= pre.push(tok));
            }
            i = j;
        } else if 48 <= b && b <= 57 {
            let j = scan_ident_end_exec(s, i);
            proof {
                lemma_scan_ident_end(s@, iold + 1);
                assert(scan_ident_end(s@, iold) == scan_ident_end(s@, iold + 1));
                assert(lex_from(s@, iold) == lex_concat(
                    seq![TokModel::Num],
                    lex_from(s@, j as int),
                ));
                lemma_concat_push(pre, TokModel::Num, lex_from(s@, j as int));
            }
            toks.push(Tok::Num);
            proof {
                assert(views_of(toks@) =~= pre.push(TokModel::Num));
            }
            i = j;
        } else if b == B_TICK {
            if s.len() - i > 2 && s[i + 1] != B_BSLASH && s[i + 2] == B_TICK {
                proof {
                    assert(lex_from(s@, iold) == lex_from(s@, iold + 3));
                }
                i += 3;
            } else if s.len() - i > 3 && s[i + 1] == B_BSLASH && s[i + 3] == B_TICK {
                proof {
                    assert(lex_from(s@, iold) == lex_from(s@, iold + 4));
                }
                i += 4;
            } else {
                proof {
                    assert(lex_from(s@, iold) == lex_concat(
                        seq![TokModel::Punct(B_TICK)],
                        lex_from(s@, iold + 1),
                    ));
                    lemma_concat_push(pre, TokModel::Punct(B_TICK), lex_from(s@, iold + 1));
                }
                toks.push(Tok::Punct(B_TICK));
                proof {
                    assert(views_of(toks@) =~= pre.push(TokModel::Punct(B_TICK)));
                }
                i += 1;
            }
        } else if b == B_LPAREN || b == B_LBRACKET || b == B_LBRACE {
            proof {
                assert(lex_from(s@, iold) == lex_concat(
                    seq![TokModel::Open(b)],
                    lex_from(s@, iold + 1),
                ));
                lemma_concat_push(pre, TokModel::Open(b), lex_from(s@, iold + 1));
            }
            toks.push(Tok::Open(b));
            proof {
                assert(views_of(toks@) =~= pre.push(TokModel::Open(b)));
            }
            i += 1;
        } else if b == B_RPAREN || b == B_RBRACKET || b == B_RBRACE {
            proof {
                assert(lex_from(s@, iold) == lex_concat(
                    seq![TokModel::Close(b)],
                    lex_from(s@, iold + 1),
                ));
                lemma_concat_push(pre, TokModel::Close(b), lex_from(s@, iold + 1));
            }
            toks.push(Tok::Close(b));
            proof {
                assert(views_of(toks@) =~= pre.push(TokModel::Close(b)));
            }
            i += 1;
        } else {
            proof {
                assert(lex_from(s@, iold) == lex_concat(
                    seq![TokModel::Punct(b)],
                    lex_from(s@, iold + 1),
                ));
                lemma_concat_push(pre, TokModel::Punct(b), lex_from(s@, iold + 1));
            }
            toks.push(Tok::Punct(b));
            proof {
                assert(views_of(toks@) =~= pre.push(TokModel::Punct(b)));
            }
            i += 1;
        }
    }
    proof {
        assert(lex_from(s@, s@.len() as int) == Some(Seq::<TokModel>::empty()));
        assert(views_of(toks@) + Seq::<TokModel>::empty() =~= views_of(toks@));
    }
    Some(toks)
}

/// Attaching one token to the front of the remainder is the same as
/// pushing it onto the tokens already scanned.
proof fn lemma_concat_push(pre: Seq<TokModel>, t: TokModel, rest: Option<Seq<TokModel>>)
    ensures
        lex_concat(pre, lex_concat(seq![t], rest)) == lex_concat(pre.push(t), rest),
{
    match rest {
        Some(r) => {
            assert(pre + (seq![t] + r) =~= pre.push(t) + r);
        },
        None => {
        },
    }
}

/// The keyword that introduces a function item.
pub open spec fn kw_fn() -> Seq<u8> {
    lit("fn")
}

/// The name of the entry-point function.
pub open spec fn kw_invoke() -> Seq<u8> {
    lit("invoke")
}

/// The name of the dispatch construct.
pub open spec fn kw_dispatch() -> Seq<u8> {
    lit("match_method")
}

/// The reserved constructor method name.
pub open spec fn key_constructor() -> Seq<u8> {
    lit("Constructor")
}

/// The reserved set-up method name.
pub open spec fn key_setup() -> Seq<u8> {
    lit("SetUp")
}

/// Index of the first `fn invoke` token pair at or after `i`.
pub open spec fn find_fn_invoke(toks: Seq<TokModel>, i: int) -> Option<int>
    decreases toks.len() - i,
{
    if i + 1 >= toks.len() {
        None
    } else if toks[i] == TokModel::Ident(kw_fn()) && toks[i + 1] == TokModel::Ident(kw_invoke()) {
        Some(i)
    } else {
        find_fn_invoke(toks, i + 1)
    }
}

/// Index of the first opening brace in `[i, end)`.
pub open spec fn find_open_brace(toks: Seq<TokModel>, i: int, end: int) -> Option<int>
    decreases end - i,
{
    if i >= end {
        None
    } else if toks[i] == TokModel::Open(B_LBRACE) {
        Some(i)
    } else {
        find_open_brace(toks, i + 1, end)
    }
}

/// Index of the closing delimiter matching an opening delimiter `ob`
/// left open `depth` times before `i`.
pub open spec fn find_close(toks: Seq<TokModel>, i: int, ob: u8, depth: nat) -> Option<int>
    decreases toks.len() - i,
{
    if i >= toks.len() {
        None
    } else if toks[i] == TokModel::Open(ob) {
        find_close(toks, i + 1, ob, depth + 1)
    } else if toks[i] == TokModel::Close(close_of(ob)) {
        if depth == 1 {
            Some(i)
        } else {
            find_close(toks, i + 1, ob, (depth - 1) as nat)
        }
    } else {
        find_close(toks, i + 1, ob, depth)
    }
}

/// Index of the first dispatch-construct invocation (its name followed
/// by an exclamation mark) in `[i, end)`.
pub open spec fn find_dispatch_call(toks: Seq<TokModel>, i: int, end: int) -> Option<int>
    decreases end - i,
{
    if i + 1 >= end {
        None
    } else if toks[i] == TokModel::Ident(kw_dispatch()) && toks[i + 1] == TokModel::Punct(B_BANG) {
        Some(i)
    } else {
        find_dispatch_call(toks, i + 1, end)
    }
}

/// Index of the first opening delimiter of any kind in `[i, end)`.
pub open spec fn find_any_open(toks: Seq<TokModel>, i: int, end: int) -> Option<int>
    decreases end - i,
{
    if i >= end {
        None
    } else if toks[i] is Open {
        Some(i)
    } else {
        find_any_open(toks, i + 1, end)
    }
}

/// The string literals at bracket depth 0 in `[i, end)`, in lexical
/// order: the match keys of the dispatch block, with arm bodies and
/// other nested groups skipped.
pub open spec fn keys_in(toks: Seq<TokModel>, i: int, end: int, depth: nat) -> Seq<Seq<u8>>
    decreases end - i,
{
    if i >= end {
        Seq::empty()
    } else {
        match toks[i] {
            TokModel::Open(_) => keys_in(toks, i + 1, end, depth + 1),
            TokModel::Close(_) => keys_in(
                toks,
                i + 1,
                end,
                if depth == 0 {
                    0nat
                } else {
                    (depth - 1) as nat
                },
            ),
            TokModel::StrLit(c) => if depth == 0 {
                seq![c] + keys_in(toks, i + 1, end, depth)
            } else {
                keys_in(toks, i + 1, end, depth)
            },
            _ => keys_in(toks, i + 1, end, depth),
        }
    }
}

/// Why extraction of a dispatch table failed.
#[derive(Clone, Copy, PartialEq, Eq, Structural, Debug)]
pub enum ExtractError {
    /// A string literal or block comment in the source never closes.
    MalformedSource,
    /// The entry-point function is absent (or has no body).
    EntryPointNotFound,
    /// The entry-point body holds no dispatch-construct invocation.
    DispatchCallNotFound,
    /// The dispatch construct has no block argument.
    DispatchBlockNotFound,
}

/// The match keys of the dispatch construct located inside the
/// invocation that starts at token `m`, whose search may not pass `bc`.
pub open spec fn keys_of_call(toks: Seq<TokModel>, m: int, bc: int) -> Result<
    Seq<Seq<u8>>,
    ExtractError,
> {
    if m + 2 < bc && toks[m + 2] is Open {
        let ob = toks[m + 2]->Open_0;
        match find_close(toks, m + 3, ob, 1) {
            None => Err(ExtractError::DispatchBlockNotFound),
            Some(mc) => match find_any_open(toks, m + 3, mc) {
                None => Err(ExtractError::DispatchBlockNotFound),
                Some(g) => {
                    let gb = toks[g]->Open_0;
                    match find_close(toks, g + 1, gb, 1) {
                        None => Err(ExtractError::DispatchBlockNotFound),
                        Some(gc) => Ok(keys_in(toks, g + 1, gc, 0)),
                    }
                },
            },
        }
    } else {
        Err(ExtractError::DispatchBlockNotFound)
    }
}

/// The match keys of a token sequence: locate `fn invoke`, its body,
/// the dispatch invocation inside the body, and the keys of its block.
pub open spec fn keys_of_toks(toks: Seq<TokModel>) -> Result<Seq<Seq<u8>>, ExtractError> {
    match find_fn_invoke(toks, 0) {
        None => Err(ExtractError::EntryPointNotFound),
        Some(f) => match find_open_brace(toks, f + 2, toks.len() as int) {
            None => Err(ExtractError::EntryPointNotFound),
            Some(bo) => match find_close(toks, bo + 1, B_LBRACE, 1) {
                None => Err(ExtractError::EntryPointNotFound),
                Some(bc) => match find_dispatch_call(toks, bo + 1, bc) {
                    None => Err(ExtractError::DispatchCallNotFound),
                    Some(m) => keys_of_call(toks, m, bc),
                },
            },
        },
    }
}

/// The match keys of a unit's entry-point source text, in lexical
/// order, with duplicates preserved.
pub open spec fn extract_keys_spec(src: Seq<u8>) -> Result<Seq<Seq<u8>>, ExtractError> {
    match lex_from(src, 0) {
        None => Err(ExtractError::MalformedSource),
        Some(toks) => keys_of_toks(toks),
    }
}

fn tok_is_ident(t: &Tok, w: &[u8]) -> (r: bool)
    ensures
        r == (t@ == TokModel::Ident(w@)),
{
    match t {
        Tok::Ident(v) => bytes_eq(v.as_slice(), w),
        _ => false,
    }
}

fn tok_is_punct(t: &Tok, b: u8) -> (r: bool)
    ensures
        r == (t@ == TokModel::Punct(b)),
{
    match t {
        Tok::Punct(p) => *p == b,
        _ => false,
    }
}

fn tok_is_open(t: &Tok, b: u8) -> (r: bool)
    ensures
        r == (t@ == TokModel::Open(b)),
{
    match t {
        Tok::Open(p) => *p == b,
        _ => false,
    }
}

fn tok_is_close(t: &Tok, b: u8) -> (r: bool)
    ensures
        r == (t@ == TokModel::Close(b)),
{
    match t {
        Tok::Close(p) => *p == b,
        _ => false,
    }
}

fn tok_any_open(t: &Tok) -> (r: Option<u8>)
    ensures
        match r {
            Some(b) => t@ == TokModel::Open(b),
            None => !(t@ is Open),
        },
{
    match t {
        Tok::Open(p) => Some(*p),
        _ => None,
    }
}

fn close_of_exec(b: u8) -> (r: u8)
    ensures
        r == close_of(b),
{
    if b == B_LPAREN {
        B_RPAREN
    } else if b == B_LBRACKET {
        B_RBRACKET
    } else {
        B_RBRACE
    }
}

fn find_fn_invoke_exec(toks: &Vec<Tok>) -> (r: Option<usize>)
    ensures
        match r {
            Some(f) => find_fn_invoke(views_of(toks@), 0) == Some(f as int) && f + 1 < toks@.len(),
            None => find_fn_invoke(views_of(toks@), 0) is None,
        },
{
    let fn_kw = lit_bytes("fn");
    let invoke_kw = lit_bytes("invoke");
    let mut i: usize = 0;
    while toks.len() - i > 1
        invariant
            i <= toks@.len(),
            fn_kw@ == kw_fn(),
            invoke_kw@ == kw_invoke(),
            find_fn_invoke(views_of(toks@), 0) == find_fn_invoke(views_of(toks@), i as int),
        decreases toks@.len() - i,
    {
        proof {
            assert(views_of(toks@)[i as int] == toks@[i as int]@);
            assert(views_of(toks@)[i + 1] == toks@[i + 1]@);
        }
        if tok_is_ident(&toks[i], fn_kw.as_slice()) && tok_is_ident(
            &toks[i + 1],
            invoke_kw.as_slice(),
        ) {
            return Some(i);
        }
        i += 1;
    }
    None
}

fn find_open_brace_exec(toks: &Vec<Tok>, i: usize, end: usize) -> (r: Option<usize>)
    requires
        i <= end <= toks@.len(),
    ensures
        match r {
            Some(j) => find_open_brace(views_of(toks@), i as int, end as int) == Some(j as int)
                && i <= j < end,
            None => find_open_brace(views_of(toks@), i as int, end as int) is None,
        },
{
    let mut j: usize = i;
    while j < end
        invariant
            i <= j <= end <= toks@.len(),
            find_open_brace(views_of(toks@), i as int, end as int) == find_open_brace(
                views_of(toks@),
                j as int,
                end as int,
            ),
        decreases end - j,
    {
        proof {
            assert(views_of(toks@)[j as int] == toks@[j as int]@);
        }
        if tok_is_open(&toks[j], B_LBRACE) {
            return Some(j);
        }
        j += 1;
    }
    None
}

fn find_close_exec(toks: &Vec<Tok>, i: usize, ob: u8) -> (r: Option<usize>)
    requires
        i <= toks@.len(),
    ensures
        match r {
            Some(j) => find_close(views_of(toks@), i as int, ob, 1) == Some(j as int) && i <= j
                < toks@.len(),
            None => find_close(views_of(toks@), i as int, ob, 1) is None,
        },
{
    let cb = close_of_exec(ob);
    let mut j: usize = i;
    let mut depth: u128 = 1;
    while j < toks.len()
        invariant
            i <= j <= toks@.len(),
            1 <= depth <= j - i + 1,
            cb == close_of(ob),
            find_close(views_of(toks@), i as int, ob, 1) == find_close(
                views_of(toks@),
                j as int,
                ob,
                depth as nat,
            ),
        decreases toks@.len() - j,
    {
        proof {
            assert(views_of(toks@)[j as int] == toks@[j as int]@);
        }
        if tok_is_open(&toks[j], ob) {
            depth += 1;
        } else if tok_is_close(&toks[j], cb) {
            if depth == 1 {
                return Some(j);
            }
            depth -= 1;
        }
        j += 1;
    }
    None
}

fn find_dispatch_call_exec(toks: &Vec<Tok>, i: usize, end: usize) -> (r: Option<usize>)
    requires
        i <= end <= toks@.len(),
    ensures
        match r {
            Some(m) => find_dispatch_call(views_of(toks@), i as int, end as int) == Some(m as int)
                && i <= m && m + 1 < end,
            None => find_dispatch_call(views_of(toks@), i as int, end as int) is None,
        },
{
    let dispatch_kw = lit_bytes("match_method");
    let mut j: usize = i;
    while end - j > 1
        invariant
            i <= j <= end <= toks@.len(),
            dispatch_kw@ == kw_dispatch(),
            find_dispatch_call(views_of(toks@), i as int, end as int) == find_dispatch_call(
                views_of(toks@),
                j as int,
                end as int,
            ),
        decreases end - j,
    {
        proof {
            assert(views_of(toks@)[j as int] == toks@[j as int]@);
            assert(views_of(toks@)[j + 1] == toks@[j + 1]@);
        }
        if tok_is_ident(&toks[j], dispatch_kw.as_slice()) && tok_is_punct(&toks[j + 1], B_BANG) {
            return Some(j);
        }
        j += 1;
    }
    None
}

fn find_any_open_exec(toks: &Vec<Tok>, i: usize, end: usize) -> (r: Option<usize>)
    requires
        i <= end <= toks@.len(),
    ensures
        match r {
            Some(g) => find_any_open(views_of(toks@), i as int, end as int) == Some(g as int) && i
                <= g < end && views_of(toks@)[g as int] is Open,
            None => find_any_open(views_of(toks@), i as int, end as int) is None,
        },
{
    let mut j: usize = i;
    while j < end
        invariant
            i <= j <= end <= toks@.len(),
            find_any_open(views_of(toks@), i as int, end as int) == find_any_open(
                views_of(toks@),
                j as int,
                end as int,
            ),
        decreases end - j,
    {
        proof {
            assert(views_of(toks@)[j as int] == toks@[j as int]@);
        }
        match tok_any_open(&toks[j]) {
            Some(_) => {
                return Some(j);
            },
            None => {
            },
        }
        j += 1;
    }
    None
}

fn collect_keys(toks: &Vec<Tok>, start: usize, end: usize) -> (r: Vec<Vec<u8>>)
    requires
        start <= end <= toks@.len(),
    ensures
        r.deep_view() == keys_in(views_of(toks@), start as int, end as int, 0),
{
    let mut out: Vec<Vec<u8>> = Vec::new();
    let mut k: usize = start;
    let mut depth: usize = 0;
    while k < end
        invariant
            start <= k <= end <= toks@.len(),
            depth <= k - start,
            keys_in(views_of(toks@), start as int, end as int, 0) == out.deep_view() + keys_in(
                views_of(toks@),
                k as int,
                end as int,
                depth as nat,
            ),
        decreases end - k,
    {
        let ghost pre = out.deep_view();
        let ghost rest = keys_in(views_of(toks@), k as int, end as int, depth as nat);
        proof {
            assert(views_of(toks@)[k as int] == toks@[k as int]@);
        }
        match &toks[k] {
            Tok::Open(_) => {
                depth += 1;
            },
            Tok::Close(_) => {
                if depth > 0 {
                    depth -= 1;
                }
            },
            Tok::StrLit(c) => {
                if depth == 0 {
                    let ghost cv = c@;
                    out.push(copy_vec(c));
                    proof {
                        assert(out.deep_view() =~~= pre.push(cv));
                        assert(rest == seq![cv] + keys_in(
                            views_of(toks@),
                            k + 1,
                            end as int,
                            depth as nat,
                        ));
                        assert(pre + (seq![cv] + keys_in(
                            views_of(toks@),
                            k + 1,
                            end as int,
                            depth as nat,
                        )) =~= pre.push(cv) + keys_in(
                            views_of(toks@),
                            k + 1,
                            end as int,
                            depth as nat,
                        ));
                    }
                }
            },
            _ => {
            },
        }
        k += 1;
    }
    proof {
        assert(out.deep_view() + Seq::<Seq<u8>>::empty() =~= out.deep_view());
    }
    out
}

/// Extracts, in lexical order, the string-literal match keys of the
/// dispatch construct found in the entry point of `src`; exactly the
/// keys that [`extract_keys_spec`] names, or the error it names.
pub fn extract_dispatch_keys(src: &[u8]) -> (r: Result<Vec<Vec<u8>>, ExtractError>)
    ensures
        match r {
            Ok(keys) => extract_keys_spec(src@) == Ok::<Seq<Seq<u8>>, ExtractError>(
                keys.deep_view(),
            ),
            Err(e) => extract_keys_spec(src@) == Err::<Seq<Seq<u8>>, ExtractError>(e),
        },
{
    let toks = match tokenize(src) {
        Some(toks) => toks,
        None => {
            return Err(ExtractError::MalformedSource);
        },
    };
    let f = match find_fn_invoke_exec(&toks) {
        Some(f) => f,
        None => {
            return Err(ExtractError::EntryPointNotFound);
        },
    };
    let bo = match find_open_brace_exec(&toks, f + 2, toks.len()) {
        Some(bo) => bo,
        None => {
            return Err(ExtractError::EntryPointNotFound);
        },
    };
    let bc = match find_close_exec(&toks, bo + 1, B_LBRACE) {
        Some(bc) => bc,
        None => {
            return Err(ExtractError::EntryPointNotFound);
        },
    };
    let m = match find_dispatch_call_exec(&toks, bo + 1, bc) {
        Some(m) => m,
        None => {
            return Err(ExtractError::DispatchCallNotFound);
        },
    };
    if !(m + 2 < bc) {
        return Err(ExtractError::DispatchBlockNotFound);
    }
    let ob = match tok_any_open(&toks[m + 2]) {
        Some(ob) => ob,
        None => {
            proof {
                assert(views_of(toks@)[m + 2] == toks@[m + 2]@);
            }
            return Err(ExtractError::DispatchBlockNotFound);
        },
    };
    proof {
        assert(views_of(toks@)[m + 2] == toks@[m + 2]@);
    }
    let mc = match find_close_exec(&toks, m + 3, ob) {
        Some(mc) => mc,
        None => {
            return Err(ExtractError::DispatchBlockNotFound);
        },
    };
    let g = match find_any_open_exec(&toks, m + 3, mc) {
        Some(g) => g,
        None => {
            return Err(ExtractError::DispatchBlockNotFound);
        },
    };
    let gb = match tok_any_open(&toks[g]) {
        Some(gb) => gb,
        None => {
            proof {
                assert(views_of(toks@)[g as int] == toks@[g as int]@);
            }
            return Err(ExtractError::DispatchBlockNotFound);
        },
    };
    proof {
        assert(views_of(toks@)[g as int] == toks@[g as int]@);
    }
    let gc = match find_close_exec(&toks, g + 1, gb) {
        Some(gc) => gc,
        None => {
            return Err(ExtractError::DispatchBlockNotFound);
        },
    };
    Ok(collect_keys(&toks, g + 1, gc))
}

/// Whether a key names one of the two reserved roles.
pub open spec fn is_reserved_key(k: Seq<u8>) -> bool {
    k == key_constructor() || k == key_setup()
}

/// The ordinary method names among the keys: the reserved roles
/// removed, the order of first appearance and any duplicates kept.
pub open spec fn plain_methods(keys: Seq<Seq<u8>>) -> Seq<Seq<u8>>
    decreases keys.len(),
{
    if keys.len() == 0 {
        Seq::empty()
    } else {
        let rest = plain_methods(keys.drop_last());
        if is_reserved_key(keys.last()) {
            rest
        } else {
            rest.push(keys.last())
        }
    }
}

/// The dispatch table recovered from one unit's entry point: whether
/// the reserved constructor and set-up roles appear, and the ordinary
/// method names in lexical order.
pub struct DispatchKeys {
    pub has_constructor: bool,
    pub has_setup: bool,
    pub methods: Vec<Vec<u8>>,
}

proof fn lemma_take_contains(s: Seq<Seq<u8>>, i: int, x: Seq<u8>)
    requires
        0 <= i < s.len(),
    ensures
        s.take(i + 1).contains(x) == (s.take(i).contains(x) || s[i] == x),
{
    if s.take(i).contains(x) {
        let j = choose|j: int| 0 <= j < s.take(i).len() && #[trigger] s.take(i)[j] == x;
        assert(s.take(i + 1)[j] == x);
    }
    if s[i] == x {
        assert(s.take(i + 1)[i] == x);
    }
    if s.take(i + 1).contains(x) {
        let j = choose|j: int| 0 <= j < s.take(i + 1).len() && #[trigger] s.take(i + 1)[j] == x;
        if j < i {
            assert(s.take(i)[j] == x);
        }
    }
}

/// Routes the extracted keys into the two reserved roles and the
/// ordinary method list, in order, duplicates preserved.
pub fn classify_keys(keys: &Vec<Vec<u8>>) -> (t: DispatchKeys)
    ensures
        t.has_constructor == keys.deep_view().contains(key_constructor()),
        t.has_setup == keys.deep_view().contains(key_setup()),
        t.methods.deep_view() == plain_methods(keys.deep_view()),
{
    let cons = lit_bytes("Constructor");
    let setup = lit_bytes("SetUp");
    let mut has_constructor = false;
    let mut has_setup = false;
    let mut methods: Vec<Vec<u8>> = Vec::new();
    let mut i: usize = 0;
    while i < keys.len()
        invariant
            i <= keys@.len(),
            cons@ == key_constructor(),
            setup@ == key_setup(),
            has_constructor == keys.deep_view().take(i as int).contains(key_constructor()),
            has_setup == keys.deep_view().take(i as int).contains(key_setup()),
            methods.deep_view() == plain_methods(keys.deep_view().take(i as int)),
        decreases keys@.len() - i,
    {
        let ghost dv = keys.deep_view();
        let ghost pre = methods.deep_view();
        let k = &keys[i];
        proof {
            assert(dv[i as int] == keys@[i as int].deep_view());
            assert(keys@[i as int].deep_view() =~= keys@[i as int]@);
        }
        let is_cons = bytes_eq(k.as_slice(), cons.as_slice());
        let is_setup = bytes_eq(k.as_slice(), setup.as_slice());
        if is_cons {
            has_constructor = true;
        }
        if is_setup {
            has_setup = true;
        }
        if !is_cons && !is_setup {
            methods.push(copy_vec(k));
            proof {
                assert(methods.deep_view() =~~= pre.push(dv[i as int]));
            }
        }
        proof {
            lemma_take_contains(dv, i as int, key_constructor());
            lemma_take_contains(dv, i as int, key_setup());
            assert(dv.take(i + 1).drop_last() =~= dv.take(i as int));
            assert(dv.take(i + 1).last() == dv[i as int]);
        }
        i += 1;
    }
    proof {
        assert(keys.deep_view().take(keys@.len() as int) =~= keys.deep_view());
    }
    DispatchKeys { has_constructor, has_setup, methods }
}

/// Extracts a unit's dispatch table from its entry-point source text:
/// the keys that [`extract_keys_spec`] names, routed into the reserved
/// roles and the ordered method list.
pub fn extract_table(src: &[u8]) -> (r: Result<DispatchKeys, ExtractError>)
    ensures
        match r {
            Ok(t) => {
                &&& extract_keys_spec(src@) matches Ok(keys)
                &&& t.has_constructor == keys.contains(key_constructor())
                &&& t.has_setup == keys.contains(key_setup())
                &&& t.methods.deep_view() == plain_methods(keys)
            },
            Err(e) => extract_keys_spec(src@) == Err::<Seq<Seq<u8>>, ExtractError>(e),
        },
{
    match extract_dispatch_keys(src) {
        Ok(keys) => Ok(classify_keys(&keys)),
        Err(e) => Err(e),
    }
}

/// The ordinary methods are exactly the extracted keys with the two
/// reserved role names filtered out: the relative order of first
/// appearance, and any duplicates, are preserved.
pub proof fn lemma_methods_are_filtered_keys(keys: Seq<Seq<u8>>)
    ensures
        plain_methods(keys) == keys.filter(|k: Seq<u8>| !is_reserved_key(k)),
    decreases keys.len(),
{
    reveal(Seq::filter);
    if keys.len() > 0 {
        lemma_methods_are_filtered_keys(keys.drop_last());
    }
}

} // verus!

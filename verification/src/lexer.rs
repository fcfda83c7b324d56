//! Lexical analysis. Every token kind has a pattern; the lexer gathers all
//! candidate matches of every pattern over the whole input, sorts them by
//! start position (and, at equal starts, longest first, keeping the priority
//! order of the kinds on full ties), then scans left to right accepting each
//! candidate that does not overlap what was already consumed. Input spans
//! that no pattern matches are skipped silently.

use vstd::prelude::*;
use vstd::string::*;
use crate::text::{dec_value_i64, parse_decimal};
use crate::token::{spec_token_regex, token_view, tokens_view, valid_token_name, SpecToken, Token};

verus! {

/// A token kind tried by the lexer, in priority order; the identifier kind
/// comes last so keywords win full ties.
#[derive(Debug, Clone, Copy, PartialEq, Eq, Structural)]
pub enum TokenKind {
    Print,
    If,
    Else,
    Int,
    Maybe,
    Paywall,
    IntegerLiteral,
    StringLiteral,
    Plus,
    Minus,
    Assign,
    GreaterThan,
    LessThan,
    LeftParen,
    RightParen,
    LeftBrace,
    RightBrace,
    SemiColon,
    Identifier,
}

/// A candidate match: a token kind, the byte span it matched, and the text
/// of the match.
pub struct SpecCand {
    pub kind: TokenKind,
    pub start: int,
    pub end: int,
    pub text: Seq<char>,
}

/// One match of a pattern over the input.
struct RegexMatch {
    start: usize,
    end: usize,
    text: String,
}

/// The matches that the regex crate's search yields for `pattern` over
/// `text`, as (start byte offset, end byte offset, matched substring), in
/// search order; `None` when the pattern does not compile (invalid syntax,
/// or past the compiler's default size limit). The result is a function of
/// the two arguments alone.
pub uninterp spec fn regex_find(pattern: Seq<char>, text: Seq<char>) -> Option<
    Seq<(int, int, Seq<char>)>,
>;

/// Relies on regex::Regex::new and regex::Regex::find_iter: `new` returns
/// `Ok` exactly when the pattern compiles, and `find_iter` yields the
/// successive non-overlapping matches in the haystack, each carrying byte
/// offsets with `start() <= end()` and, via `as_str`, the substring of the
/// haystack that matched.
#[verifier::external_body]
fn regex_find_all(pattern: &str, text: &str) -> (r: Option<Vec<RegexMatch>>)
    ensures
        match r {
            Some(v) => {
                &&& regex_find(pattern@, text@) == Some(
                    v@.map_values(|m: RegexMatch| (m.start as int, m.end as int, m.text@)),
                )
                &&& forall|i: int| 0 <= i < v@.len() ==> (#[trigger] v@[i]).start <= v@[i].end
            },
            None => regex_find(pattern@, text@) is None,
        },
{
    match regex::Regex::new(pattern) {
        Ok(re) => Some(
            re.find_iter(text).map(
                |m| RegexMatch { start: m.start(), end: m.end(), text: m.as_str().to_string() },
            ).collect(),
        ),
        Err(_) => None,
    }
}

/// The token-type name of a kind.
pub open spec fn spec_kind_name(k: TokenKind) -> Seq<char> {
    match k {
        TokenKind::Print => "Print"@,
        TokenKind::If => "If"@,
        TokenKind::Else => "Else"@,
        TokenKind::Int => "Int"@,
        TokenKind::Maybe => "Maybe"@,
        TokenKind::Paywall => "Paywall"@,
        TokenKind::IntegerLiteral => "IntegerLiteral"@,
        TokenKind::StringLiteral => "StringLiteral"@,
        TokenKind::Plus => "Plus"@,
        TokenKind::Minus => "Minus"@,
        TokenKind::Assign => "Assign"@,
        TokenKind::GreaterThan => "GreaterThan"@,
        TokenKind::LessThan => "LessThan"@,
        TokenKind::LeftParen => "LeftParen"@,
        TokenKind::RightParen => "RightParen"@,
        TokenKind::LeftBrace => "LeftBrace"@,
        TokenKind::RightBrace => "RightBrace"@,
        TokenKind::SemiColon => "SemiColon"@,
        TokenKind::Identifier => "Identifier"@,
    }
}

fn kind_name_str(k: TokenKind) -> (r: &'static str)
    ensures
        r@ == spec_kind_name(k),
{
    match k {
        TokenKind::Print => "Print",
        TokenKind::If => "If",
        TokenKind::Else => "Else",
        TokenKind::Int => "Int",
        TokenKind::Maybe => "Maybe",
        TokenKind::Paywall => "Paywall",
        TokenKind::IntegerLiteral => "IntegerLiteral",
        TokenKind::StringLiteral => "StringLiteral",
        TokenKind::Plus => "Plus",
        TokenKind::Minus => "Minus",
        TokenKind::Assign => "Assign",
        TokenKind::GreaterThan => "GreaterThan",
        TokenKind::LessThan => "LessThan",
        TokenKind::LeftParen => "LeftParen",
        TokenKind::RightParen => "RightParen",
        TokenKind::SemiColon => "SemiColon",
        TokenKind::LeftBrace => "LeftBrace",
        TokenKind::RightBrace => "RightBrace",
        TokenKind::Identifier => "Identifier",
    }
}

proof fn lemma_kind_name_valid(k: TokenKind)
    ensures
        valid_token_name(spec_kind_name(k)),
{
}

/// The kinds the lexer tries, in priority order.
pub open spec fn lex_kinds() -> Seq<TokenKind> {
    seq![
        TokenKind::Print,
        TokenKind::If,
        TokenKind::Else,
        TokenKind::Int,
        TokenKind::Maybe,
        TokenKind::Paywall,
        TokenKind::IntegerLiteral,
        TokenKind::StringLiteral,
        TokenKind::Plus,
        TokenKind::Minus,
        TokenKind::Assign,
        TokenKind::GreaterThan,
        TokenKind::LessThan,
        TokenKind::LeftParen,
        TokenKind::RightParen,
        TokenKind::LeftBrace,
        TokenKind::RightBrace,
        TokenKind::SemiColon,
        TokenKind::Identifier,
    ]
}

/// The candidates one kind's pattern yields over the input.
pub open spec fn cands_of_kind(k: TokenKind, program: Seq<char>) -> Seq<SpecCand> {
    match regex_find(spec_token_regex(spec_kind_name(k)), program) {
        Some(ms) => Seq::new(
            ms.len(),
            |i: int| if 0 <= i < ms.len() {
                SpecCand { kind: k, start: ms[i].0, end: ms[i].1, text: ms[i].2 }
            } else {
                SpecCand { kind: k, start: 0, end: 0, text: Seq::empty() }
            },
        ),
        None => Seq::empty(),
    }
}

/// The candidates of a list of kinds, in kind order.
pub open spec fn cands_of_kinds(ks: Seq<TokenKind>, program: Seq<char>) -> Seq<SpecCand>
    decreases ks.len(),
{
    if ks.len() == 0 {
        Seq::empty()
    } else {
        cands_of_kinds(ks.drop_last(), program) + cands_of_kind(ks.last(), program)
    }
}

/// Candidate order: earlier start first; at equal starts, the longer match
/// first.
pub open spec fn cand_lt(a: SpecCand, b: SpecCand) -> bool {
    a.start < b.start || (a.start == b.start && a.end - a.start > b.end - b.start)
}

/// Inserts `x` into an already sorted candidate list, after every element it
/// does not strictly precede, so equal candidates keep their first-come
/// order.
pub open spec fn sorted_insert(s: Seq<SpecCand>, x: SpecCand) -> Seq<SpecCand>
    decreases s.len(),
{
    if s.len() == 0 {
        seq![x]
    } else if cand_lt(x, s.last()) {
        sorted_insert(s.drop_last(), x).push(s.last())
    } else {
        s.push(x)
    }
}

/// Stable insertion sort by `cand_lt`.
pub open spec fn stable_sort(s: Seq<SpecCand>) -> Seq<SpecCand>
    decreases s.len(),
{
    if s.len() == 0 {
        s
    } else {
        sorted_insert(stable_sort(s.drop_last()), s.last())
    }
}

/// A candidate list in scan order: no element strictly precedes an earlier
/// one.
pub open spec fn cands_ordered(s: Seq<SpecCand>) -> bool {
    forall|i: int, j: int| 0 <= i < j < s.len() ==> !cand_lt(#[trigger] s[j], #[trigger] s[i])
}

proof fn lemma_sorted_insert_elems(s: Seq<SpecCand>, x: SpecCand)
    ensures
        forall|i: int|
            0 <= i < sorted_insert(s, x).len() ==> ((exists|k: int|
                0 <= k < s.len() && #[trigger] sorted_insert(s, x)[i] == s[k]) || sorted_insert(
                s,
                x,
            )[i] == x),
        sorted_insert(s, x).len() == s.len() + 1,
    decreases s.len(),
{
    if s.len() == 0 {
    } else if cand_lt(x, s.last()) {
        lemma_sorted_insert_elems(s.drop_last(), x);
        assert forall|i: int| 0 <= i < sorted_insert(s, x).len() implies ((exists|k: int|
            0 <= k < s.len() && #[trigger] sorted_insert(s, x)[i] == s[k]) || sorted_insert(s, x)[i]
            == x) by {
            let r = sorted_insert(s.drop_last(), x);
            if i < r.len() {
                if exists|k: int| 0 <= k < s.drop_last().len() && r[i] == s.drop_last()[k] {
                    let k = choose|k: int|
                        0 <= k < s.drop_last().len() && r[i] == s.drop_last()[k];
                    assert(s.drop_last()[k] == s[k]);
                }
            } else {
                assert(sorted_insert(s, x)[i] == s.last());
                assert(s.last() == s[s.len() - 1]);
            }
        }
    }
}

proof fn lemma_sorted_insert_ordered(s: Seq<SpecCand>, x: SpecCand)
    requires
        cands_ordered(s),
    ensures
        cands_ordered(sorted_insert(s, x)),
    decreases s.len(),
{
    if s.len() == 0 {
    } else if cand_lt(x, s.last()) {
        assert(cands_ordered(s.drop_last()));
        lemma_sorted_insert_ordered(s.drop_last(), x);
        lemma_sorted_insert_elems(s.drop_last(), x);
        let r = sorted_insert(s.drop_last(), x);
        assert forall|i: int, j: int|
            0 <= i < j < sorted_insert(s, x).len() implies !cand_lt(
            #[trigger] sorted_insert(s, x)[j],
            #[trigger] sorted_insert(s, x)[i],
        ) by {
            if j < r.len() {
                assert(sorted_insert(s, x)[i] == r[i]);
                assert(sorted_insert(s, x)[j] == r[j]);
            } else {
                // The last element is `s.last()`; everything before it is an
                // element of `s.drop_last()` or `x`, none of which follows it.
                assert(sorted_insert(s, x)[j] == s.last());
                assert(sorted_insert(s, x)[i] == r[i]);
                if exists|k: int| 0 <= k < s.drop_last().len() && r[i] == s.drop_last()[k] {
                    let k = choose|k: int|
                        0 <= k < s.drop_last().len() && r[i] == s.drop_last()[k];
                    assert(!cand_lt(s[s.len() - 1], s[k]));
                }
            }
        }
    } else {
        assert forall|i: int, j: int|
            0 <= i < j < sorted_insert(s, x).len() implies !cand_lt(
            #[trigger] sorted_insert(s, x)[j],
            #[trigger] sorted_insert(s, x)[i],
        ) by {
            if j == s.len() {
                assert(sorted_insert(s, x)[j] == x);
                assert(sorted_insert(s, x)[i] == s[i]);
                if i < s.len() - 1 {
                    assert(!cand_lt(s[s.len() - 1], s[i]));
                }
                assert(!cand_lt(x, s.last()));
            } else {
                assert(sorted_insert(s, x)[i] == s[i]);
                assert(sorted_insert(s, x)[j] == s[j]);
            }
        }
    }
}

/// The lexer's sorted candidate list is in scan order.
pub proof fn lemma_stable_sort_ordered(s: Seq<SpecCand>)
    ensures
        cands_ordered(stable_sort(s)),
    decreases s.len(),
{
    if s.len() > 0 {
        lemma_stable_sort_ordered(s.drop_last());
        lemma_sorted_insert_ordered(stable_sort(s.drop_last()), s.last());
    }
}

/// Longest match wins: of two sorted candidates at the same start position,
/// the earlier one is at least as long. The scan accepts the first candidate
/// at every position it has not yet consumed, so of overlapping candidates
/// at one start position it always accepts a longest one.
pub proof fn lemma_lexer_longest_match(cands: Seq<SpecCand>, i: int, j: int)
    requires
        0 <= i < j < stable_sort(cands).len(),
        stable_sort(cands)[i].start == stable_sort(cands)[j].start,
    ensures
        stable_sort(cands)[i].end - stable_sort(cands)[i].start >= stable_sort(cands)[j].end
            - stable_sort(cands)[j].start,
{
    lemma_stable_sort_ordered(cands);
    assert(!cand_lt(stable_sort(cands)[j], stable_sort(cands)[i]));
}

/// The scan takes the first candidate at any position it has not consumed:
/// with the sort above, that is a longest candidate at that position.
pub proof fn lemma_scan_accepts_first(cands: Seq<SpecCand>, last_end: int)
    requires
        cands.len() > 0,
        cands.first().start >= last_end,
    ensures
        scan_cands(cands, last_end).len() > 0,
        scan_cands(cands, last_end).first() == spec_token_of_cand(cands.first()),
{
}

/// A string literal's text without its delimiting quotes.
pub open spec fn strip_quotes(s: Seq<char>) -> Seq<char> {
    if s.len() >= 2 {
        s.subrange(1, s.len() - 1)
    } else {
        s
    }
}

/// The token an accepted candidate turns into. Integer literal values clamp
/// at `i64::MAX`; string literals lose their quotes.
pub open spec fn spec_token_of_cand(c: SpecCand) -> SpecToken {
    match c.kind {
        TokenKind::Print => SpecToken::Print,
        TokenKind::If => SpecToken::If,
        TokenKind::Else => SpecToken::Else,
        TokenKind::Int => SpecToken::Int,
        TokenKind::Maybe => SpecToken::Maybe,
        TokenKind::Paywall => SpecToken::Paywall,
        TokenKind::IntegerLiteral => SpecToken::IntegerLiteral(dec_value_i64(c.text)),
        TokenKind::StringLiteral => SpecToken::StringLiteral(strip_quotes(c.text)),
        TokenKind::Plus => SpecToken::Plus,
        TokenKind::Minus => SpecToken::Minus,
        TokenKind::Assign => SpecToken::Assign,
        TokenKind::GreaterThan => SpecToken::GreaterThan,
        TokenKind::LessThan => SpecToken::LessThan,
        TokenKind::LeftParen => SpecToken::LeftParen,
        TokenKind::RightParen => SpecToken::RightParen,
        TokenKind::LeftBrace => SpecToken::LeftBrace,
        TokenKind::RightBrace => SpecToken::RightBrace,
        TokenKind::SemiColon => SpecToken::SemiColon,
        TokenKind::Identifier => SpecToken::Identifier(c.text),
    }
}

/// The left-to-right scan: a candidate is accepted only if its start is not
/// inside the span already consumed; accepting moves the consumed span to
/// its end.
pub open spec fn scan_cands(cands: Seq<SpecCand>, last_end: int) -> Seq<SpecToken>
    decreases cands.len(),
{
    if cands.len() == 0 {
        Seq::empty()
    } else if cands.first().start < last_end {
        scan_cands(cands.drop_first(), last_end)
    } else {
        seq![spec_token_of_cand(cands.first())] + scan_cands(cands.drop_first(), cands.first().end)
    }
}

/// The tokens of a source text.
pub open spec fn lex_spec(program: Seq<char>) -> Seq<SpecToken> {
    scan_cands(stable_sort(cands_of_kinds(lex_kinds(), program)), 0)
}

/// An executable candidate.
struct Cand {
    kind: TokenKind,
    start: usize,
    end: usize,
    text: String,
}

spec fn cand_view(c: Cand) -> SpecCand {
    SpecCand { kind: c.kind, start: c.start as int, end: c.end as int, text: c.text@ }
}

spec fn cands_view(s: Seq<Cand>) -> Seq<SpecCand> {
    Seq::new(s.len(), |i: int| cand_view(s[i]))
}

spec fn cand_wf(c: SpecCand) -> bool {
    0 <= c.start <= c.end
}

spec fn cands_wf(s: Seq<SpecCand>) -> bool {
    forall|i: int| 0 <= i < s.len() ==> cand_wf(#[trigger] s[i])
}

fn cand_lt_exec(a: &Cand, b: &Cand) -> (r: bool)
    requires
        cand_wf(cand_view(*a)),
        cand_wf(cand_view(*b)),
    ensures
        r == cand_lt(cand_view(*a), cand_view(*b)),
{
    a.start < b.start || (a.start == b.start && a.end - a.start > b.end - b.start)
}

fn token_of_cand(c: &Cand) -> (r: Token)
    ensures
        token_view(r) == spec_token_of_cand(cand_view(*c)),
{
    match c.kind {
        TokenKind::Print => Token::Print,
        TokenKind::If => Token::If,
        TokenKind::Else => Token::Else,
        TokenKind::Int => Token::Int,
        TokenKind::Maybe => Token::Maybe,
        TokenKind::Paywall => Token::Paywall,
        TokenKind::IntegerLiteral => Token::IntegerLiteral(parse_decimal(c.text.as_str())),
        TokenKind::StringLiteral => {
            let n: usize = c.text.as_str().unicode_len();
            if n >= 2 {
                Token::StringLiteral(String::from_str(c.text.as_str().substring_char(1, n - 1)))
            } else {
                Token::StringLiteral(c.text.clone())
            }
        },
        TokenKind::Plus => Token::Plus,
        TokenKind::Minus => Token::Minus,
        TokenKind::Assign => Token::Assign,
        TokenKind::GreaterThan => Token::GreaterThan,
        TokenKind::LessThan => Token::LessThan,
        TokenKind::LeftParen => Token::LeftParen,
        TokenKind::RightParen => Token::RightParen,
        TokenKind::LeftBrace => Token::LeftBrace,
        TokenKind::RightBrace => Token::RightBrace,
        TokenKind::SemiColon => Token::SemiColon,
        TokenKind::Identifier => Token::Identifier(c.text.clone()),
    }
}

/// Turns a source text into its token sequence.
pub fn lex_program(program: &str) -> (r: Vec<Token>)
    ensures
        tokens_view(r@) == lex_spec(program@),
{
    // The kinds to try, in priority order.
    let mut kinds: Vec<TokenKind> = Vec::new();
    kinds.push(TokenKind::Print);
    kinds.push(TokenKind::If);
    kinds.push(TokenKind::Else);
    kinds.push(TokenKind::Int);
    kinds.push(TokenKind::Maybe);
    kinds.push(TokenKind::Paywall);
    kinds.push(TokenKind::IntegerLiteral);
    kinds.push(TokenKind::StringLiteral);
    kinds.push(TokenKind::Plus);
    kinds.push(TokenKind::Minus);
    kinds.push(TokenKind::Assign);
    kinds.push(TokenKind::GreaterThan);
    kinds.push(TokenKind::LessThan);
    kinds.push(TokenKind::LeftParen);
    kinds.push(TokenKind::RightParen);
    kinds.push(TokenKind::LeftBrace);
    kinds.push(TokenKind::RightBrace);
    kinds.push(TokenKind::SemiColon);
    kinds.push(TokenKind::Identifier);
    proof {
        assert(kinds@ =~= lex_kinds());
    }

    // Gather every candidate match of every kind.
    let mut cands: Vec<Cand> = Vec::new();
    let mut ki: usize = 0;
    proof {
        assert(lex_kinds().take(0) =~= Seq::<TokenKind>::empty());
        assert(cands_view(cands@) =~= cands_of_kinds(lex_kinds().take(0), program@));
    }
    while ki < kinds.len()
        invariant
            kinds@ == lex_kinds(),
            0 <= ki <= kinds@.len(),
            cands_view(cands@) == cands_of_kinds(lex_kinds().take(ki as int), program@),
            cands_wf(cands_view(cands@)),
        decreases kinds@.len() - ki,
    {
        let k = kinds[ki];
        proof {
            lemma_kind_name_valid(k);
        }
        let pattern = Token::get_token_regex(kind_name_str(k));
        let ghost pre = cands_view(cands@);
        match regex_find_all(pattern.as_str(), program) {
            Some(ms) => {
                let mut j: usize = 0;
                proof {
                    assert(cands_of_kind(k, program@).take(0) =~= Seq::<SpecCand>::empty());
                    assert(pre + cands_of_kind(k, program@).take(0) =~= pre);
                }
                while j < ms.len()
                    invariant
                        0 <= j <= ms@.len(),
                        regex_find(spec_token_regex(spec_kind_name(k)), program@) == Some(
                            ms@.map_values(
                                |m: RegexMatch| (m.start as int, m.end as int, m.text@),
                            ),
                        ),
                        forall|i: int|
                            0 <= i < ms@.len() ==> (#[trigger] ms@[i]).start <= ms@[i].end,
                        cands_view(cands@) == pre + cands_of_kind(k, program@).take(j as int),
                        cands_wf(cands_view(cands@)),
                    decreases ms@.len() - j,
                {
                    let m = &ms[j];
                    let c = Cand { kind: k, start: m.start, end: m.end, text: m.text.clone() };
                    proof {
                        assert(cand_view(c) == cands_of_kind(k, program@)[j as int]);
                    }
                    let ghost prev = cands_view(cands@);
                    cands.push(c);
                    proof {
                        let ck = cands_of_kind(k, program@);
                        assert(cands_view(cands@) =~= prev.push(ck[j as int]));
                        assert(ck.take(j + 1) =~= ck.take(j as int).push(ck[j as int]));
                        assert(cands_view(cands@) =~= pre + ck.take(j + 1));
                    }
                    j += 1;
                }
                proof {
                    assert(cands_of_kind(k, program@).take(ms@.len() as int) =~= cands_of_kind(
                        k,
                        program@,
                    ));
                }
            },
            None => {
                proof {
                    assert(cands_of_kind(k, program@) =~= Seq::<SpecCand>::empty());
                    assert(cands_view(cands@) =~= pre + cands_of_kind(k, program@));
                }
            },
        }
        proof {
            assert(lex_kinds().take(ki + 1).drop_last() =~= lex_kinds().take(ki as int));
            assert(lex_kinds().take(ki + 1).last() == k);
            assert(cands_view(cands@) =~= cands_of_kinds(lex_kinds().take(ki + 1), program@));
        }
        ki += 1;
    }
    proof {
        assert(lex_kinds().take(lex_kinds().len() as int) =~= lex_kinds());
    }

    // Sort by position, then longest match first; the sort is stable, so the
    // kind priority order breaks full ties.
    let mut sorted: Vec<Cand> = Vec::new();
    let mut i: usize = 0;
    proof {
        assert(cands_view(cands@).take(0) =~= Seq::<SpecCand>::empty());
        assert(cands_view(sorted@) =~= stable_sort(cands_view(cands@).take(0)));
    }
    while i < cands.len()
        invariant
            0 <= i <= cands@.len(),
            cands_view(sorted@) == stable_sort(cands_view(cands@).take(i as int)),
            cands_wf(cands_view(cands@)),
            cands_wf(cands_view(sorted@)),
        decreases cands@.len() - i,
    {
        let c = {
            let cr = &cands[i];
            Cand { kind: cr.kind, start: cr.start, end: cr.end, text: cr.text.clone() }
        };
        let ghost cv = cand_view(c);
        let ghost sv = cands_view(sorted@);
        let mut j: usize = sorted.len();
        proof {
            assert(cand_view(c) == cands_view(cands@)[i as int]);
            assert(cand_wf(cv));
            assert(sv.take(j as int) =~= sv);
            assert(sv.skip(j as int) =~= Seq::<SpecCand>::empty());
            assert(sorted_insert(sv.take(j as int), cv) + sv.skip(j as int) =~= sorted_insert(
                sv,
                cv,
            ));
        }
        while j > 0 && cand_lt_exec(&c, &sorted[j - 1])
            invariant
                0 <= j <= sv.len(),
                sv == cands_view(sorted@),
                cands_wf(sv),
                cv == cand_view(c),
                cand_wf(cv),
                sorted_insert(sv.take(j as int), cv) + sv.skip(j as int) == sorted_insert(sv, cv),
            decreases j,
        {
            proof {
                let t = sv.take(j as int);
                assert(t.last() == sv[j - 1]);
                assert(t.drop_last() =~= sv.take(j - 1));
                assert(sorted_insert(t, cv) == sorted_insert(sv.take(j - 1), cv).push(sv[j - 1]));
                assert(sorted_insert(sv.take(j - 1), cv).push(sv[j - 1]) + sv.skip(j as int)
                    =~= sorted_insert(sv.take(j - 1), cv) + sv.skip(j - 1));
            }
            j -= 1;
        }
        proof {
            let t = sv.take(j as int);
            if j == 0 {
                assert(t =~= Seq::<SpecCand>::empty());
                assert(sorted_insert(t, cv) =~= t.push(cv));
            } else {
                assert(t.last() == sv[j - 1]);
                assert(!cand_lt(cv, t.last()));
                assert(sorted_insert(t, cv) == t.push(cv));
            }
        }
        sorted.insert(j, c);
        proof {
            assert(cands_view(sorted@) =~= sv.take(j as int).push(cv) + sv.skip(j as int));
            assert(cands_view(sorted@) =~= sorted_insert(sv, cv));
            assert(cands_view(cands@).take(i + 1).drop_last() =~= cands_view(cands@).take(
                i as int,
            ));
            assert(cands_view(cands@).take(i + 1).last() == cv);
            assert(cands_view(sorted@) =~= stable_sort(cands_view(cands@).take(i + 1)));
        }
        i += 1;
    }
    proof {
        assert(cands_view(cands@).take(cands@.len() as int) =~= cands_view(cands@));
    }

    // Accept candidates left to right, skipping any that start inside the
    // span already consumed.
    let ghost sortedv = cands_view(sorted@);
    let mut result: Vec<Token> = Vec::new();
    let mut last_end: usize = 0;
    let mut si: usize = 0;
    proof {
        assert(sortedv.skip(0) =~= sortedv);
        assert(tokens_view(result@) =~= Seq::<SpecToken>::empty());
        assert(tokens_view(result@) + scan_cands(sortedv, 0) =~= scan_cands(sortedv, 0));
    }
    while si < sorted.len()
        invariant
            0 <= si <= sortedv.len(),
            sortedv == cands_view(sorted@),
            cands_wf(sortedv),
            tokens_view(result@) + scan_cands(sortedv.skip(si as int), last_end as int)
                == scan_cands(sortedv, 0),
        decreases sortedv.len() - si,
    {
        let ghost rest = sortedv.skip(si as int);
        proof {
            assert(rest.first() == sortedv[si as int]);
            assert(rest.drop_first() =~= sortedv.skip(si + 1));
        }
        let start = sorted[si].start;
        if start < last_end {
            si += 1;
        } else {
            let t = token_of_cand(&sorted[si]);
            let end = sorted[si].end;
            proof {
                assert(scan_cands(rest, last_end as int) == seq![
                    spec_token_of_cand(rest.first()),
                ] + scan_cands(rest.drop_first(), rest.first().end));
                assert(tokens_view(result@.push(t)) =~= tokens_view(result@) + seq![
                    token_view(t),
                ]);
                assert(tokens_view(result@.push(t)) + scan_cands(
                    sortedv.skip(si + 1),
                    rest.first().end,
                ) =~= tokens_view(result@) + scan_cands(rest, last_end as int));
            }
            result.push(t);
            last_end = end;
            si += 1;
        }
    }
    proof {
        assert(sortedv.skip(sortedv.len() as int) =~= Seq::<SpecCand>::empty());
        assert(tokens_view(result@) =~= scan_cands(sortedv, 0));
    }
    result
}

} // verus!

//! Cell and range references: `A1`, `A1:B5`.
//!
//! A column name is a bijective base-26 numeral over the letters `A` to `Z`
//! (`A` = 1, `Z` = 26, `AA` = 27); rows are written from 1. Both are held
//! zero-based once parsed.

use vstd::prelude::*;
use crate::unicode::{alphabetic, is_alphabetic, is_numeric, numeric};

verus! {

/// An ASCII letter of either case.
pub open spec fn is_letter(c: char) -> bool {
    ('a' <= c && c <= 'z') || ('A' <= c && c <= 'Z')
}

/// The digit that a letter stands for: 1 for `A` or `a`, 26 for `Z` or `z`.
pub open spec fn letter_value(c: char) -> int {
    if 'a' <= c && c <= 'z' {
        c as int - 'a' as int + 1
    } else {
        c as int - 'A' as int + 1
    }
}

/// Every character of `s` is an ASCII letter.
pub open spec fn all_letters(s: Seq<char>) -> bool {
    forall|i: int| 0 <= i < s.len() ==> is_letter(#[trigger] s[i])
}

/// The number that a column name writes, most significant letter first.
/// The empty name writes 0, which is the number of no column.
pub open spec fn column_number(s: Seq<char>) -> int
    decreases s.len(),
{
    if s.len() == 0 {
        0
    } else {
        26 * column_number(s.drop_last()) + letter_value(s.last())
    }
}

/// The zero-based index of the column named `s`, where `s` is a name and the
/// index fits in 32 bits.
pub open spec fn column_index(s: Seq<char>) -> Option<u32> {
    if s.len() > 0 && all_letters(s) && column_number(s) - 1 <= u32::MAX {
        Some((column_number(s) - 1) as u32)
    } else {
        None
    }
}

/// A name's number is at least 1, and no smaller than that of any prefix of it.
pub proof fn lemma_column_number_grows(s: Seq<char>, n: int)
    requires
        all_letters(s),
        0 <= n <= s.len(),
    ensures
        0 <= column_number(s.take(n)) <= column_number(s),
        n > 0 ==> 1 <= column_number(s.take(n)),
    decreases s.len() - n,
{
    lemma_column_number_positive(s.take(n));
    if n < s.len() {
        lemma_column_number_grows(s, n + 1);
        let t = s.take(n + 1);
        assert(t.drop_last() =~= s.take(n));
        assert(is_letter(t.last()));
    } else {
        assert(s.take(n) =~= s);
    }
}

/// A name's number is 0 for the empty name and at least 1 otherwise.
pub proof fn lemma_column_number_positive(s: Seq<char>)
    requires
        all_letters(s),
    ensures
        s.len() == 0 ==> column_number(s) == 0,
        s.len() > 0 ==> column_number(s) >= 1,
    decreases s.len(),
{
    if s.len() > 0 {
        lemma_column_number_positive(s.drop_last());
        assert(is_letter(s.last()));
    }
}

/// The zero-based index of the column that `column_name` names, whatever the
/// case of its letters. Fails on the empty name, on any character that is not
/// an ASCII letter, and on a name whose index does not fit in 32 bits.
pub fn column_name_to_idx(column_name: &str) -> (result: Result<u32, ()>)
    ensures
        match result {
            Ok(idx) => column_index(column_name@) == Some(idx),
            Err(_) => column_index(column_name@) is None,
        },
{
    let len = column_name.unicode_len();
    if len == 0 {
        return Err(());
    }
    let mut value: u64 = 0;
    let mut i: usize = 0;
    while i < len
        invariant
            len == column_name@.len(),
            0 <= i <= len,
            all_letters(column_name@.take(i as int)),
            value == column_number(column_name@.take(i as int)),
            value <= u32::MAX + 1,
        decreases len - i,
    {
        let c = column_name.get_char(i);
        let digit: u64 = if 'a' <= c && c <= 'z' {
            (c as u64) - ('a' as u64) + 1
        } else if 'A' <= c && c <= 'Z' {
            (c as u64) - ('A' as u64) + 1
        } else {
            assert(!is_letter(column_name@[i as int]));
            return Err(());
        };
        proof {
            let t = column_name@.take(i + 1);
            assert(t.drop_last() =~= column_name@.take(i as int));
            assert(t.last() == c);
            assert(digit == letter_value(c));
            assert forall|j: int| 0 <= j < t.len() implies is_letter(#[trigger] t[j]) by {
                if j < i {
                    assert(t[j] == column_name@.take(i as int)[j]);
                }
            }
        }
        value = 26 * value + digit;
        i = i + 1;
        if value > 0x1_0000_0000 {
            proof {
                if all_letters(column_name@) {
                    lemma_column_number_grows(column_name@, i as int);
                }
            }
            return Err(());
        }
    }
    proof {
        assert(column_name@.take(len as int) =~= column_name@);
        lemma_column_number_positive(column_name@);
    }
    Ok((value - 1) as u32)
}

/// Two names that differ at most in the case of their letters.
pub open spec fn same_letters(s: Seq<char>, t: Seq<char>) -> bool {
    &&& s.len() == t.len()
    &&& forall|i: int| 0 <= i < s.len() ==> letter_value(#[trigger] s[i]) == letter_value(t[i])
}

/// The capital letter that stands for the digit `d`, from 1 to 26.
pub open spec fn letter_of(d: int) -> char {
    ('A' as int + d - 1) as char
}

/// The name in capital letters that writes the number `n`; the empty name
/// for 0.
pub open spec fn column_name(n: nat) -> Seq<char>
    decreases n,
{
    if n == 0 {
        Seq::empty()
    } else {
        column_name(((n - 1) / 26) as nat).push(letter_of((n - 1) % 26 + 1))
    }
}

/// Case does not count: names that differ only in the case of their letters
/// write the same number.
pub proof fn lemma_column_number_ignores_case(s: Seq<char>, t: Seq<char>)
    requires
        same_letters(s, t),
    ensures
        column_number(s) == column_number(t),
    decreases s.len(),
{
    if s.len() > 0 {
        let s0 = s.drop_last();
        let t0 = t.drop_last();
        assert forall|i: int| 0 <= i < s0.len() implies letter_value(#[trigger] s0[i])
            == letter_value(t0[i]) by {
            assert(s0[i] == s[i] && t0[i] == t[i]);
        }
        lemma_column_number_ignores_case(s0, t0);
        assert(letter_value(s[s.len() - 1]) == letter_value(t[s.len() - 1]));
    }
}

/// No two names share a number: names of letters that write the same number
/// differ at most in the case of their letters.
pub proof fn lemma_column_number_injective(s: Seq<char>, t: Seq<char>)
    requires
        all_letters(s),
        all_letters(t),
        column_number(s) == column_number(t),
    ensures
        same_letters(s, t),
    decreases s.len(),
{
    lemma_column_number_positive(s);
    lemma_column_number_positive(t);
    if s.len() > 0 {
        let s0 = s.drop_last();
        let t0 = t.drop_last();
        let x = letter_value(s.last());
        let y = letter_value(t.last());
        assert(is_letter(s.last()) && is_letter(t.last()));
        assert(1 <= x <= 26 && 1 <= y <= 26);
        assert(26 * (column_number(s0) - column_number(t0)) == y - x);
        assert(column_number(s0) == column_number(t0));
        assert forall|i: int| 0 <= i < s0.len() implies is_letter(#[trigger] s0[i]) by {
            assert(s0[i] == s[i]);
        }
        assert forall|i: int| 0 <= i < t0.len() implies is_letter(#[trigger] t0[i]) by {
            assert(t0[i] == t[i]);
        }
        lemma_column_number_injective(s0, t0);
        assert forall|i: int| 0 <= i < s.len() implies letter_value(#[trigger] s[i])
            == letter_value(t[i]) by {
            if i < s.len() - 1 {
                assert(s0[i] == s[i] && t0[i] == t[i]);
            }
        }
    }
}

/// Every number has a name: `column_name(n)` is a name of `n`, of capital
/// letters, and empty only for 0.
pub proof fn lemma_column_name_writes(n: nat)
    ensures
        all_letters(column_name(n)),
        column_number(column_name(n)) == n,
        n > 0 ==> column_name(n).len() > 0,
    decreases n,
{
    if n > 0 {
        let rest = ((n - 1) / 26) as nat;
        let d = (n - 1) % 26 + 1;
        lemma_column_name_writes(rest);
        let name = column_name(n);
        assert(name.drop_last() =~= column_name(rest));
        assert(name.last() == letter_of(d));
        assert(is_letter(letter_of(d)) && letter_value(letter_of(d)) == d);
        assert forall|i: int| 0 <= i < name.len() implies is_letter(#[trigger] name[i]) by {
            if i < name.len() - 1 {
                assert(name[i] == column_name(rest)[i]);
            }
        }
    }
}

/// The names of ASCII letters, taken without regard to case, and the column
/// indices correspond one to one: equal indices come only from names that
/// differ at most in case, such names have equal indices, and every index of
/// 32 bits is that of the name `column_name(idx + 1)`.
pub proof fn lemma_column_index_bijective(s: Seq<char>, t: Seq<char>, idx: u32)
    ensures
        column_index(s) is Some && column_index(s) == column_index(t) ==> same_letters(s, t),
        column_index(s) is Some && same_letters(s, t) ==> column_index(t) == column_index(s),
        column_index(column_name((idx + 1) as nat)) == Some(idx),
{
    if column_index(s) is Some && column_index(s) == column_index(t) {
        lemma_column_number_positive(s);
        lemma_column_number_positive(t);
        lemma_column_number_injective(s, t);
    }
    if column_index(s) is Some && same_letters(s, t) {
        lemma_column_number_ignores_case(s, t);
        assert forall|i: int| 0 <= i < t.len() implies is_letter(#[trigger] t[i]) by {
            assert(is_letter(s[i]));
            assert(letter_value(s[i]) == letter_value(t[i]));
        }
    }
    lemma_column_name_writes((idx + 1) as nat);
}

/// A decimal digit `0` to `9`.
pub open spec fn is_digit(c: char) -> bool {
    '0' <= c && c <= '9'
}

/// Every character of `s` is a decimal digit.
pub open spec fn all_digits(s: Seq<char>) -> bool {
    forall|i: int| 0 <= i < s.len() ==> is_digit(#[trigger] s[i])
}

/// The number that a run of decimal digits writes.
pub open spec fn decimal_value(s: Seq<char>) -> int
    decreases s.len(),
{
    if s.len() == 0 {
        0
    } else {
        10 * decimal_value(s.drop_last()) + (s.last() as int - '0' as int)
    }
}

/// One lexical unit of a reference.
#[derive(Debug, PartialEq)]
pub enum Token {
    /// A run of alphabetic characters.
    Identifier(String),
    /// A run of decimal digits, read as a number.
    Number(u32),
    /// The character `:`.
    RangeOperator,
    /// A run of numeric characters that is no decimal numeral of 32 bits:
    /// one of them is not an ASCII digit, or the number is too large.
    InvalidNumber,
}

/// A token with its text as a sequence of characters.
pub enum TokenView {
    Identifier(Seq<char>),
    Number(u32),
    RangeOperator,
    InvalidNumber,
}

impl View for Token {
    type V = TokenView;

    open spec fn view(&self) -> TokenView {
        match self {
            Token::Identifier(name) => TokenView::Identifier(name@),
            Token::Number(n) => TokenView::Number(*n),
            Token::RangeOperator => TokenView::RangeOperator,
            Token::InvalidNumber => TokenView::InvalidNumber,
        }
    }
}

/// The views of a sequence of tokens.
pub open spec fn token_views(tokens: Seq<Token>) -> Seq<TokenView> {
    tokens.map_values(|t: Token| t@)
}

/// What the tokenizer sees in a character.
#[derive(Debug, Clone, Copy, PartialEq, Eq)]
pub enum CharKind {
    /// A character that may stand in an identifier.
    Alphabetic,
    /// A character that may stand in a number.
    Numeric,
    /// Any other character.
    Other,
}

/// The kind of a character: alphabetic before numeric, by the classes of the
/// Unicode standard.
pub open spec fn kind_of(c: char) -> CharKind {
    if alphabetic(c) {
        CharKind::Alphabetic
    } else if numeric(c) {
        CharKind::Numeric
    } else {
        CharKind::Other
    }
}

/// The kinds of the characters of a text.
pub open spec fn kinds_of(s: Seq<char>) -> Seq<CharKind> {
    s.map_values(|c: char| kind_of(c))
}

/// The kind at the place `i`; a place without a kind counts as `Other`.
pub open spec fn kind_at(kinds: Seq<CharKind>, i: int) -> CharKind {
    if 0 <= i < kinds.len() {
        kinds[i]
    } else {
        CharKind::Other
    }
}

/// Where the run of characters of the kind `kind` that starts at `from`
/// ends within the first `len` characters: the first place from `from` that
/// is not of the kind, or `len`.
pub open spec fn run_end(kinds: Seq<CharKind>, len: int, from: int, kind: CharKind) -> int
    decreases len - from,
{
    if from < len && kind_at(kinds, from) == kind {
        run_end(kinds, len, from + 1, kind)
    } else {
        from
    }
}

/// The token that a run of numeric characters gives.
pub open spec fn number_token(run: Seq<char>) -> TokenView {
    if all_digits(run) && decimal_value(run) <= u32::MAX {
        TokenView::Number(decimal_value(run) as u32)
    } else {
        TokenView::InvalidNumber
    }
}

/// The tokens of `s` from the place `from` on, where the characters have the
/// kinds `kinds`. A run of alphabetic characters is an identifier, a run of
/// numeric characters a number, `:` the range operator; any other character
/// is passed over.
pub open spec fn tokens_from(s: Seq<char>, kinds: Seq<CharKind>, from: int) -> Seq<TokenView>
    decreases s.len() - from,
{
    if from < 0 || from >= s.len() {
        Seq::empty()
    } else {
        match kind_at(kinds, from) {
            CharKind::Alphabetic => {
                let end = run_end(kinds, s.len() as int, from + 1, CharKind::Alphabetic);
                proof {
                    lemma_run_end_bounds(kinds, s.len() as int, from + 1, CharKind::Alphabetic);
                }
                seq![TokenView::Identifier(s.subrange(from, end))] + tokens_from(s, kinds, end)
            },
            CharKind::Numeric => {
                let end = run_end(kinds, s.len() as int, from + 1, CharKind::Numeric);
                proof {
                    lemma_run_end_bounds(kinds, s.len() as int, from + 1, CharKind::Numeric);
                }
                seq![number_token(s.subrange(from, end))] + tokens_from(s, kinds, end)
            },
            CharKind::Other => if s[from] == ':' {
                seq![TokenView::RangeOperator] + tokens_from(s, kinds, from + 1)
            } else {
                tokens_from(s, kinds, from + 1)
            },
        }
    }
}

/// The tokens of `s`, left to right, where its characters have the kinds
/// `kinds`.
pub open spec fn tokens_with(s: Seq<char>, kinds: Seq<CharKind>) -> Seq<TokenView> {
    tokens_from(s, kinds, 0)
}

/// The tokens of `s`, left to right.
pub open spec fn tokens(s: Seq<char>) -> Seq<TokenView> {
    tokens_with(s, kinds_of(s))
}

/// A run ends at or after its start, and within the text where it starts
/// there.
pub proof fn lemma_run_end_bounds(kinds: Seq<CharKind>, len: int, from: int, kind: CharKind)
    ensures
        from <= run_end(kinds, len, from, kind),
        from <= len ==> run_end(kinds, len, from, kind) <= len,
    decreases len - from,
{
    if from < len && kind_at(kinds, from) == kind {
        lemma_run_end_bounds(kinds, len, from + 1, kind);
    }
}

/// A stretch of characters of one kind that the text ends after, or that a
/// character of another kind follows, is the run from each of its places.
pub proof fn lemma_run_end_is(kinds: Seq<CharKind>, len: int, from: int, end: int, kind: CharKind)
    requires
        from <= end <= len,
        forall|j: int| from <= j < end ==> kind_at(kinds, j) == kind,
        end == len || kind_at(kinds, end) != kind,
    ensures
        run_end(kinds, len, from, kind) == end,
    decreases end - from,
{
    if from < end {
        lemma_run_end_is(kinds, len, from + 1, end, kind);
    }
}

/// The value of a run of digits is no smaller than that of a prefix of it.
pub proof fn lemma_decimal_value_grows(s: Seq<char>, n: int)
    requires
        all_digits(s),
        0 <= n <= s.len(),
    ensures
        0 <= decimal_value(s.take(n)) <= decimal_value(s),
    decreases s.len() - n,
{
    if n < s.len() {
        lemma_decimal_value_grows(s, n + 1);
        let t = s.take(n + 1);
        assert(t.drop_last() =~= s.take(n));
        assert(is_digit(t.last()));
        lemma_decimal_value_nonnegative(s.take(n));
    } else {
        assert(s.take(n) =~= s);
        lemma_decimal_value_nonnegative(s);
    }
}

/// The value of a run of digits is not negative.
pub proof fn lemma_decimal_value_nonnegative(s: Seq<char>)
    requires
        all_digits(s),
    ensures
        0 <= decimal_value(s),
    decreases s.len(),
{
    if s.len() > 0 {
        lemma_decimal_value_nonnegative(s.drop_last());
        assert(is_digit(s.last()));
    }
}

/// Whether the place `i` has the kind `kind`.
fn has_kind(kinds: &Vec<CharKind>, i: usize, kind: CharKind) -> (result: bool)
    ensures
        result == (kind_at(kinds@, i as int) == kind),
{
    let found = if i < kinds.len() {
        kinds[i]
    } else {
        CharKind::Other
    };
    match (found, kind) {
        (CharKind::Alphabetic, CharKind::Alphabetic) => true,
        (CharKind::Numeric, CharKind::Numeric) => true,
        (CharKind::Other, CharKind::Other) => true,
        _ => false,
    }
}

/// Reads the run of numeric characters that starts at `start`. Returns the
/// place after the run and the token that the run gives.
fn scan_number(input: &str, kinds: &Vec<CharKind>, len: usize, start: usize) -> (result: (
    usize,
    Token,
))
    requires
        len == input@.len(),
        start < len,
    ensures
        result.0 == run_end(kinds@, len as int, start + 1, CharKind::Numeric),
        start < result.0 <= len,
        result.1@ == number_token(input@.subrange(start as int, result.0 as int)),
{
    let mut i: usize = start;
    let mut value: u64 = 0;
    let mut valid: bool = true;
    let ghost s = input@;
    while i < len && (i == start || has_kind(kinds, i, CharKind::Numeric))
        invariant
            s == input@,
            len == s.len(),
            start <= i <= len,
            start < len,
            forall|j: int| start < j < i ==> kind_at(kinds@, j) == CharKind::Numeric,
            valid ==> all_digits(s.subrange(start as int, i as int)),
            valid ==> value == decimal_value(s.subrange(start as int, i as int)),
            valid ==> value <= u32::MAX,
            !valid ==> exists|k: int|
                start < k <= i && !(all_digits(#[trigger] s.subrange(start as int, k))
                    && decimal_value(s.subrange(start as int, k)) <= u32::MAX),
        decreases len - i,
    {
        let c = input.get_char(i);
        let ghost run = s.subrange(start as int, i + 1);
        proof {
            assert(run.drop_last() =~= s.subrange(start as int, i as int));
            assert(run.last() == c);
        }
        if valid {
            if '0' <= c && c <= '9' {
                value = 10 * value + ((c as u64) - ('0' as u64));
                proof {
                    assert forall|j: int| 0 <= j < run.len() implies is_digit(#[trigger] run[j]) by {
                        if j < run.len() - 1 {
                            assert(run[j] == s.subrange(start as int, i as int)[j]);
                        }
                    }
                }
                if value > 0xffff_ffff {
                    valid = false;
                }
            } else {
                proof {
                    assert(!is_digit(run[run.len() - 1]));
                }
                valid = false;
            }
        }
        i = i + 1;
    }
    let ghost run = s.subrange(start as int, i as int);
    proof {
        lemma_run_end_is(kinds@, len as int, start + 1, i as int, CharKind::Numeric);
        if !valid {
            let k = choose|k: int|
                start < k <= i && !(all_digits(#[trigger] s.subrange(start as int, k))
                    && decimal_value(s.subrange(start as int, k)) <= u32::MAX);
            let prefix = s.subrange(start as int, k);
            assert(run.take(k - start) =~= prefix);
            if all_digits(run) {
                assert forall|j: int| 0 <= j < prefix.len() implies is_digit(
                    #[trigger] prefix[j],
                ) by {
                    assert(prefix[j] == run[j]);
                }
                lemma_decimal_value_grows(run, k - start);
            }
        }
    }
    if valid {
        (i, Token::Number(value as u32))
    } else {
        (i, Token::InvalidNumber)
    }
}

/// Reads the run of alphabetic characters that starts at `start`. Returns the
/// place after the run and the identifier that the run spells.
fn scan_identifier(input: &str, kinds: &Vec<CharKind>, len: usize, start: usize) -> (result: (
    usize,
    Token,
))
    requires
        len == input@.len(),
        start < len,
    ensures
        result.0 == run_end(kinds@, len as int, start + 1, CharKind::Alphabetic),
        start < result.0 <= len,
        result.1@ == TokenView::Identifier(input@.subrange(start as int, result.0 as int)),
{
    let mut i: usize = start + 1;
    while i < len && has_kind(kinds, i, CharKind::Alphabetic)
        invariant
            len == input@.len(),
            start < i <= len,
            forall|j: int| start < j < i ==> kind_at(kinds@, j) == CharKind::Alphabetic,
        decreases len - i,
    {
        i = i + 1;
    }
    proof {
        lemma_run_end_is(kinds@, len as int, start + 1, i as int, CharKind::Alphabetic);
    }
    let name = input.substring_char(start, i).to_owned();
    (i, Token::Identifier(name))
}

/// The kinds of the characters of `input`.
pub fn classify(input: &str) -> (kinds: Vec<CharKind>)
    ensures
        kinds@ == kinds_of(input@),
{
    let len = input.unicode_len();
    let mut kinds: Vec<CharKind> = Vec::new();
    let mut i: usize = 0;
    while i < len
        invariant
            len == input@.len(),
            0 <= i <= len,
            kinds@.len() == i,
            forall|j: int| 0 <= j < i ==> #[trigger] kinds@[j] == kind_of(input@[j]),
        decreases len - i,
    {
        let c = input.get_char(i);
        let kind = if is_alphabetic(c) {
            CharKind::Alphabetic
        } else if is_numeric(c) {
            CharKind::Numeric
        } else {
            CharKind::Other
        };
        kinds.push(kind);
        i = i + 1;
    }
    proof {
        assert(kinds@ =~= kinds_of(input@));
    }
    kinds
}

/// The tokens of `input`, left to right, where its characters have the kinds
/// `kinds`, place by place. A character without a kind counts as `Other`.
pub fn tokenize_with(input: &str, kinds: &Vec<CharKind>) -> (out: Vec<Token>)
    ensures
        token_views(out@) == tokens_with(input@, kinds@),
{
    let len = input.unicode_len();
    let mut out: Vec<Token> = Vec::new();
    let mut i: usize = 0;
    proof {
        assert(token_views(out@) =~= Seq::<TokenView>::empty());
    }
    while i < len
        invariant
            len == input@.len(),
            0 <= i <= len,
            token_views(out@) + tokens_from(input@, kinds@, i as int) == tokens_with(
                input@,
                kinds@,
            ),
        decreases len - i,
    {
        let ghost before = token_views(out@);
        if has_kind(kinds, i, CharKind::Alphabetic) {
            let (end, token) = scan_identifier(input, kinds, len, i);
            proof {
                let rest = tokens_from(input@, kinds@, end as int);
                assert(token_views(out@.push(token)) =~= before.push(token@));
                assert(before + (seq![token@] + rest) =~= before.push(token@) + rest);
            }
            out.push(token);
            i = end;
        } else if has_kind(kinds, i, CharKind::Numeric) {
            let (end, token) = scan_number(input, kinds, len, i);
            proof {
                let rest = tokens_from(input@, kinds@, end as int);
                assert(token_views(out@.push(token)) =~= before.push(token@));
                assert(before + (seq![token@] + rest) =~= before.push(token@) + rest);
            }
            out.push(token);
            i = end;
        } else if input.get_char(i) == ':' {
            proof {
                let rest = tokens_from(input@, kinds@, i + 1);
                assert(token_views(out@.push(Token::RangeOperator)) =~= before.push(
                    TokenView::RangeOperator,
                ));
                assert(before + (seq![TokenView::RangeOperator] + rest) =~= before.push(
                    TokenView::RangeOperator,
                ) + rest);
            }
            out.push(Token::RangeOperator);
            i = i + 1;
        } else {
            i = i + 1;
        }
    }
    proof {
        assert(tokens_from(input@, kinds@, len as int) =~= Seq::<TokenView>::empty());
    }
    out
}

/// The tokens of `input`, left to right.
pub fn tokenize(input: &str) -> (out: Vec<Token>)
    ensures
        token_views(out@) == tokens(input@),
{
    let kinds = classify(input);
    tokenize_with(input, &kinds)
}

/// The place of one cell: zero-based column, then zero-based row.
#[derive(Debug, PartialEq, Clone, Copy)]
pub struct CellReference {
    pub location: (u32, u32),
}

/// A block of cells by two of its corners, each as column, then row.
/// Nothing asks that `start` lies before `end`.
#[derive(Debug, PartialEq, Clone, Copy)]
pub struct RangeReference {
    pub start: (u32, u32),
    pub end: (u32, u32),
}

/// Why a text is no cell reference.
#[derive(Debug, PartialEq)]
pub enum ParseCellReferenceError<'a> {
    /// Data that is not available under a key. The parser never returns it.
    Redaction(String),
    /// The tokens are in order, but the column is no name of ASCII letters
    /// within 32 bits, or the row is 0.
    Unknown,
    /// The text holds no token.
    Empty,
    /// A token is missing, of the wrong kind, or one too many.
    Syntax(&'a str),
}

/// Why a text is no range reference.
#[derive(Debug, PartialEq)]
pub enum ParseRangeReferenceError<'a> {
    /// The tokens are in order, but a column is no name of ASCII letters
    /// within 32 bits, or a row is 0.
    Unknown,
    /// The text ends where the range operator or a corner should start.
    Empty,
    /// A token is missing, of the wrong kind, or one too many.
    Syntax(&'a str),
}

/// A failure to parse, with the reason as a sequence of characters.
pub enum ParseFailure {
    Redaction(Seq<char>),
    Unknown,
    Empty,
    Syntax(Seq<char>),
}

impl<'a> View for ParseCellReferenceError<'a> {
    type V = ParseFailure;

    open spec fn view(&self) -> ParseFailure {
        match self {
            ParseCellReferenceError::Redaction(key) => ParseFailure::Redaction(key@),
            ParseCellReferenceError::Unknown => ParseFailure::Unknown,
            ParseCellReferenceError::Empty => ParseFailure::Empty,
            ParseCellReferenceError::Syntax(reason) => ParseFailure::Syntax(reason@),
        }
    }
}

impl<'a> View for ParseRangeReferenceError<'a> {
    type V = ParseFailure;

    open spec fn view(&self) -> ParseFailure {
        match self {
            ParseRangeReferenceError::Unknown => ParseFailure::Unknown,
            ParseRangeReferenceError::Empty => ParseFailure::Empty,
            ParseRangeReferenceError::Syntax(reason) => ParseFailure::Syntax(reason@),
        }
    }
}

/// The reason given where the row of a cell is missing.
pub open spec fn reason_missing_row() -> Seq<char> {
    "expected row value"@
}

/// The reason given where a cell does not start with a column name.
pub open spec fn reason_not_a_column() -> Seq<char> {
    "expected a column name"@
}

/// The reason given where a number should stand for the row.
pub open spec fn reason_not_a_row() -> Seq<char> {
    "expected a number for row value"@
}

/// The reason given where `:` should stand between the corners.
pub open spec fn reason_not_an_operator() -> Seq<char> {
    "expected ':' between the corners"@
}

/// The reason given where tokens follow a complete reference.
pub open spec fn reason_trailing() -> Seq<char> {
    "unexpected input after the reference"@
}

/// The zero-based place of the cell in column `column` and one-based row
/// `row`, where there is one.
pub open spec fn cell_at(column: Seq<char>, row: u32) -> Option<(u32, u32)> {
    if column_index(column) is Some && row >= 1 {
        Some((column_index(column).unwrap(), (row - 1) as u32))
    } else {
        None
    }
}

/// The column name and row number that stand at `at` and `at + 1`.
pub open spec fn corner_at(ts: Seq<TokenView>, at: int) -> Result<(Seq<char>, u32), ParseFailure> {
    if ts.len() <= at {
        Err(ParseFailure::Empty)
    } else if ts.len() <= at + 1 {
        Err(ParseFailure::Syntax(reason_missing_row()))
    } else if !(ts[at] is Identifier) {
        Err(ParseFailure::Syntax(reason_not_a_column()))
    } else if !(ts[at + 1] is Number) {
        Err(ParseFailure::Syntax(reason_not_a_row()))
    } else {
        Ok((ts[at]->Identifier_0, ts[at + 1]->Number_0))
    }
}

/// What a sequence of tokens says as a cell reference: a column name and a
/// row number, and nothing else.
pub open spec fn cell_of_tokens(ts: Seq<TokenView>) -> Result<(u32, u32), ParseFailure> {
    match corner_at(ts, 0) {
        Err(e) => Err(e),
        Ok((column, row)) => if ts.len() > 2 {
            Err(ParseFailure::Syntax(reason_trailing()))
        } else {
            match cell_at(column, row) {
                Some(location) => Ok(location),
                None => Err(ParseFailure::Unknown),
            }
        },
    }
}

/// What a sequence of tokens says as a range reference: a corner, the range
/// operator, a corner, and nothing else.
pub open spec fn range_of_tokens(ts: Seq<TokenView>) -> Result<RangeReference, ParseFailure> {
    match corner_at(ts, 0) {
        Err(e) => Err(e),
        Ok((first_column, first_row)) => if ts.len() <= 2 {
            Err(ParseFailure::Empty)
        } else if !(ts[2] is RangeOperator) {
            Err(ParseFailure::Syntax(reason_not_an_operator()))
        } else {
            match corner_at(ts, 3) {
                Err(e) => Err(e),
                Ok((second_column, second_row)) => if ts.len() > 5 {
                    Err(ParseFailure::Syntax(reason_trailing()))
                } else {
                    match (cell_at(first_column, first_row), cell_at(second_column, second_row)) {
                        (Some(start), Some(end)) => Ok(RangeReference { start, end }),
                        _ => Err(ParseFailure::Unknown),
                    }
                },
            }
        },
    }
}

/// What `input` says as a cell reference.
pub open spec fn cell_reference_of(input: Seq<char>) -> Result<(u32, u32), ParseFailure> {
    cell_of_tokens(tokens(input))
}

/// What `input` says as a range reference.
pub open spec fn range_reference_of(input: Seq<char>) -> Result<RangeReference, ParseFailure> {
    range_of_tokens(tokens(input))
}

/// The zero-based place of the cell in the column named `column` and in the
/// one-based row `row`. Fails where the column has no index or the row is 0.
pub fn cell_location(column: &str, row: u32) -> (result: Result<(u32, u32), ()>)
    ensures
        match result {
            Ok(location) => cell_at(column@, row) == Some(location),
            Err(_) => cell_at(column@, row) is None,
        },
{
    if row == 0 {
        return Err(());
    }
    match column_name_to_idx(column) {
        Ok(idx) => Ok((idx, row - 1)),
        Err(_) => Err(()),
    }
}

/// A failure to read a corner, before it has the type of either parser.
enum CornerError {
    Empty,
    Syntax(&'static str),
}

impl CornerError {
    spec fn failure(self) -> ParseFailure {
        match self {
            CornerError::Empty => ParseFailure::Empty,
            CornerError::Syntax(reason) => ParseFailure::Syntax(reason@),
        }
    }
}

/// The column name and row number that stand at `at` and `at + 1`.
fn read_corner(tokens: &Vec<Token>, at: usize) -> (result: Result<(&str, u32), CornerError>)
    requires
        at <= 3,
    ensures
        match result {
            Ok((column, row)) => corner_at(token_views(tokens@), at as int) == Ok::<
                (Seq<char>, u32),
                ParseFailure,
            >((column@, row)),
            Err(e) => corner_at(token_views(tokens@), at as int) == Err::<
                (Seq<char>, u32),
                ParseFailure,
            >(e.failure()),
        },
{
    if tokens.len() <= at {
        return Err(CornerError::Empty);
    }
    if tokens.len() <= at + 1 {
        return Err(CornerError::Syntax("expected row value"));
    }
    let column = match &tokens[at] {
        Token::Identifier(name) => name.as_str(),
        _ => {
            return Err(CornerError::Syntax("expected a column name"));
        },
    };
    let row = match &tokens[at + 1] {
        Token::Number(n) => *n,
        _ => {
            return Err(CornerError::Syntax("expected a number for row value"));
        },
    };
    Ok((column, row))
}

/// Reads a sequence of tokens as a cell reference: a column name and a row
/// number from 1, and nothing else.
///
/// Fails with `Empty` where there is no token, with `Syntax` where the
/// tokens are not a name and a number and nothing else, and with `Unknown`
/// where the name or the number stands for no column or row.
pub fn cell_reference_from_tokens(tokens: &Vec<Token>) -> (result: Result<
    CellReference,
    ParseCellReferenceError<'static>,
>)
    ensures
        match result {
            Ok(cell) => cell_of_tokens(token_views(tokens@)) == Ok::<(u32, u32), ParseFailure>(
                cell.location,
            ),
            Err(e) => cell_of_tokens(token_views(tokens@)) == Err::<(u32, u32), ParseFailure>(e@),
        },
{
    let (column, row) = match read_corner(tokens, 0) {
        Ok(corner) => corner,
        Err(CornerError::Empty) => {
            return Err(ParseCellReferenceError::Empty);
        },
        Err(CornerError::Syntax(reason)) => {
            return Err(ParseCellReferenceError::Syntax(reason));
        },
    };
    if tokens.len() > 2 {
        return Err(ParseCellReferenceError::Syntax("unexpected input after the reference"));
    }
    match cell_location(column, row) {
        Ok(location) => Ok(CellReference { location }),
        Err(_) => Err(ParseCellReferenceError::Unknown),
    }
}

/// Reads a sequence of tokens as a range reference: a cell, the range
/// operator, and a cell, and nothing else.
///
/// Fails with `Empty` where there is no token or the tokens end where the
/// operator or the second cell should start, with `Syntax` where a token is
/// missing within a cell, of the wrong kind, or one too many, and with
/// `Unknown` where a name or a number stands for no column or row.
pub fn range_reference_from_tokens(tokens: &Vec<Token>) -> (result: Result<
    RangeReference,
    ParseRangeReferenceError<'static>,
>)
    ensures
        match result {
            Ok(range) => range_of_tokens(token_views(tokens@)) == Ok::<
                RangeReference,
                ParseFailure,
            >(range),
            Err(e) => range_of_tokens(token_views(tokens@)) == Err::<RangeReference, ParseFailure>(
                e@,
            ),
        },
{
    let (first_column, first_row) = match read_corner(tokens, 0) {
        Ok(corner) => corner,
        Err(CornerError::Empty) => {
            return Err(ParseRangeReferenceError::Empty);
        },
        Err(CornerError::Syntax(reason)) => {
            return Err(ParseRangeReferenceError::Syntax(reason));
        },
    };
    if tokens.len() <= 2 {
        return Err(ParseRangeReferenceError::Empty);
    }
    match &tokens[2] {
        Token::RangeOperator => {},
        _ => {
            return Err(ParseRangeReferenceError::Syntax("expected ':' between the corners"));
        },
    }
    let (second_column, second_row) = match read_corner(tokens, 3) {
        Ok(corner) => corner,
        Err(CornerError::Empty) => {
            return Err(ParseRangeReferenceError::Empty);
        },
        Err(CornerError::Syntax(reason)) => {
            return Err(ParseRangeReferenceError::Syntax(reason));
        },
    };
    if tokens.len() > 5 {
        return Err(ParseRangeReferenceError::Syntax("unexpected input after the reference"));
    }
    let start = match cell_location(first_column, first_row) {
        Ok(location) => location,
        Err(_) => {
            return Err(ParseRangeReferenceError::Unknown);
        },
    };
    let end = match cell_location(second_column, second_row) {
        Ok(location) => location,
        Err(_) => {
            return Err(ParseRangeReferenceError::Unknown);
        },
    };
    Ok(RangeReference { start, end })
}

/// Parses a cell reference: a column name, then a row number from 1.
///
/// Fails with `Empty` where the text holds no token, with `Syntax` where the
/// tokens are not a name and a number and nothing else, and with `Unknown`
/// where the name or the number stands for no column or row.
pub fn parse_cell_reference(input: &str) -> (result: Result<
    CellReference,
    ParseCellReferenceError,
>)
    ensures
        match result {
            Ok(cell) => cell_reference_of(input@) == Ok::<(u32, u32), ParseFailure>(
                cell.location,
            ),
            Err(e) => cell_reference_of(input@) == Err::<(u32, u32), ParseFailure>(e@),
        },
{
    let tokens = tokenize(input);
    cell_reference_from_tokens(&tokens)
}

/// Parses a range reference: a cell, `:`, and a cell.
///
/// Fails with `Empty` where the text holds no token or ends where the
/// operator or the second cell should start, with `Syntax` where a token is
/// missing within a cell, of the wrong kind, or one too many, and with
/// `Unknown` where a name or a number stands for no column or row. Nothing is
/// returned of a text that fails.
pub fn parse_range_reference(input: &str) -> (result: Result<
    RangeReference,
    ParseRangeReferenceError,
>)
    ensures
        match result {
            Ok(range) => range_reference_of(input@) == Ok::<RangeReference, ParseFailure>(range),
            Err(e) => range_reference_of(input@) == Err::<RangeReference, ParseFailure>(e@),
        },
{
    let tokens = tokenize(input);
    range_reference_from_tokens(&tokens)
}

} // verus!

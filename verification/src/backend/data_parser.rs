use crate::text::{chars_of, string_of};
use vstd::prelude::*;

verus! {

/// The code points that carry the Unicode `White_Space` property.
pub open spec fn is_whitespace(c: char) -> bool {
    let u = c as u32;
    ||| 0x09 <= u <= 0x0D
    ||| u == 0x20
    ||| u == 0x85
    ||| u == 0xA0
    ||| u == 0x1680
    ||| 0x2000 <= u <= 0x200A
    ||| u == 0x2028
    ||| u == 0x2029
    ||| u == 0x202F
    ||| u == 0x205F
    ||| u == 0x3000
}

/// A character that ends a token: a comma or any whitespace.
pub open spec fn is_separator(c: char) -> bool {
    c == ',' || is_whitespace(c)
}

/// Length of the longest prefix of `s` that holds no separator.
pub open spec fn field_len(s: Seq<char>) -> nat
    decreases s.len(),
{
    if s.len() == 0 || is_separator(s[0]) {
        0
    } else {
        1 + field_len(s.skip(1))
    }
}

/// The tokens of a line: the text is cut at every separator and the empty
/// pieces are dropped, so each token is a maximal run of characters that
/// are neither comma nor whitespace.
pub open spec fn tokens(s: Seq<char>) -> Seq<Seq<char>>
    decreases s.len(),
{
    if s.len() == 0 {
        Seq::empty()
    } else {
        let n = field_len(s);
        let rest = if n < s.len() {
            tokens(s.skip(n as int + 1))
        } else {
            Seq::empty()
        };
        if n == 0 {
            rest
        } else {
            seq![s.take(n as int)] + rest
        }
    }
}

/// A decimal digit.
pub open spec fn is_digit(c: char) -> bool {
    '0' <= c && c <= '9'
}

/// A plus or minus sign.
pub open spec fn is_sign(c: char) -> bool {
    c == '+' || c == '-'
}

/// `c` is the lower-case ASCII letter `letter` or its upper-case form.
pub open spec fn is_letter(c: char, letter: char) -> bool {
    c == letter || c as u32 + 32 == letter as u32
}

/// `w` spells `word`, a word of lower-case ASCII letters, in any mix of
/// upper and lower case.
pub open spec fn spells(w: Seq<char>, word: Seq<char>) -> bool {
    &&& w.len() == word.len()
    &&& forall|i: int| 0 <= i < w.len() ==> is_letter(#[trigger] w[i], word[i])
}

/// The three words that stand for a number without digits.
pub open spec fn is_special(w: Seq<char>) -> bool {
    ||| spells(w, seq!['i', 'n', 'f'])
    ||| spells(w, seq!['n', 'a', 'n'])
    ||| spells(w, seq!['i', 'n', 'f', 'i', 'n', 'i', 't', 'y'])
}

/// How many decimal digits stand in `s` in a row from index `i` on.
pub open spec fn digit_run(s: Seq<char>, i: int) -> nat
    decreases s.len() - i,
{
    if 0 <= i < s.len() && is_digit(s[i]) {
        1 + digit_run(s, i + 1)
    } else {
        0
    }
}

/// `s[at..]` is an exponent: `e` or `E`, an optional sign, one or more digits.
pub open spec fn is_exponent(s: Seq<char>, at: int) -> bool {
    &&& 0 <= at < s.len()
    &&& is_letter(s[at], 'e')
    &&& {
        let d = if at + 1 < s.len() && is_sign(s[at + 1]) {
            at + 2
        } else {
            at + 1
        };
        d < s.len() && d + digit_run(s, d) == s.len()
    }
}

/// `s[at..]` is a decimal number: digits with at most one point among them,
/// at least one digit in all, and an optional exponent behind.
pub open spec fn is_decimal(s: Seq<char>, at: int) -> bool {
    let whole = digit_run(s, at);
    let dot = at + whole;
    let has_dot = dot < s.len() && s[dot] == '.';
    let fraction = if has_dot {
        digit_run(s, dot + 1)
    } else {
        0
    };
    let end = if has_dot {
        dot + 1 + fraction
    } else {
        dot
    };
    whole + fraction >= 1 && (end == s.len() || is_exponent(s, end))
}

/// The tokens that count as numbers: an optional sign, then `inf`,
/// `infinity` or `nan` in any case, or a decimal number. This is the
/// grammar of the literals that std parses as a 64-bit float.
pub open spec fn is_number(t: Seq<char>) -> bool {
    let at = if t.len() > 0 && is_sign(t[0]) {
        1int
    } else {
        0int
    };
    is_special(t.skip(at)) || is_decimal(t, at)
}

/// What a token contributes to a row: its text where it is a number,
/// nothing where it is not.
pub open spec fn value_of(token: Seq<char>) -> Option<Seq<char>> {
    if is_number(token) {
        Some(token)
    } else {
        None
    }
}

/// The row of values that a line stands for, one slot per token.
pub open spec fn line_values(line: Seq<char>) -> Seq<Option<Seq<char>>> {
    tokens(line).map_values(|t: Seq<char>| value_of(t))
}

/// A prefix free of separators that ends at the end of the text or before a
/// separator is the first field.
pub proof fn lemma_field_len(s: Seq<char>, n: int)
    requires
        0 <= n <= s.len(),
        forall|k: int| 0 <= k < n ==> !is_separator(s[k]),
        n == s.len() || is_separator(s[n]),
    ensures
        field_len(s) == n,
    decreases n,
{
    if n > 0 {
        let rest = s.skip(1);
        assert forall|k: int| 0 <= k < n - 1 implies !is_separator(rest[k]) by {
            assert(rest[k] == s[k + 1]);
        }
        lemma_field_len(rest, n - 1);
    }
}

/// From `from` on, as long as the digits in the text go on, `digit_run`
/// counts them.
pub proof fn lemma_digit_run(s: Seq<char>, from: int, to: int)
    requires
        0 <= from <= to <= s.len(),
        forall|k: int| from <= k < to ==> is_digit(s[k]),
        to == s.len() || !is_digit(s[to]),
    ensures
        from + digit_run(s, from) == to,
    decreases to - from,
{
    if from < to {
        lemma_digit_run(s, from + 1, to);
    }
}

/// The first field is free of separators and ends at the end of the text
/// or before a separator.
pub proof fn lemma_field_is_run(s: Seq<char>)
    ensures
        field_len(s) <= s.len(),
        forall|k: int| 0 <= k < field_len(s) ==> !is_separator(s[k]),
        field_len(s) == s.len() || is_separator(s[field_len(s) as int]),
    decreases s.len(),
{
    if s.len() > 0 && !is_separator(s[0]) {
        let rest = s.skip(1);
        lemma_field_is_run(rest);
        assert forall|k: int| 0 <= k < field_len(s) implies !is_separator(s[k]) by {
            if k > 0 {
                assert(s[k] == rest[k - 1]);
            }
        }
    }
}

/// A run: one or more characters, none of them a separator.
pub open spec fn is_run(t: Seq<char>) -> bool {
    t.len() > 0 && forall|j: int| 0 <= j < t.len() ==> !is_separator(#[trigger] t[j])
}

/// Every token is a run.
pub proof fn lemma_tokens_are_runs(s: Seq<char>)
    ensures
        forall|k: int| 0 <= k < tokens(s).len() ==> is_run(#[trigger] tokens(s)[k]),
    decreases s.len(),
{
    if s.len() > 0 {
        let n = field_len(s);
        lemma_field_is_run(s);
        let rest = if n < s.len() {
            tokens(s.skip(n as int + 1))
        } else {
            Seq::empty()
        };
        if n < s.len() {
            lemma_tokens_are_runs(s.skip(n as int + 1));
        }
        assert forall|k: int| 0 <= k < tokens(s).len() implies is_run(#[trigger] tokens(s)[k]) by {
            if n == 0 {
                assert(tokens(s)[k] == rest[k]);
            } else if k == 0 {
                assert(tokens(s)[k] == s.take(n as int));
            } else {
                assert(tokens(s)[k] == rest[k - 1]);
            }
        }
    }
}

/// A text without a separator is one token, unless it is empty.
pub proof fn lemma_tokens_of_run(s: Seq<char>)
    requires
        is_run(s),
    ensures
        tokens(s) == seq![s],
{
    lemma_field_len(s, s.len() as int);
    assert(s.take(s.len() as int) == s);
}

/// A separator parts the tokens before it from the tokens behind it: no
/// token reaches across, so every token is a run that cannot be made
/// longer.
pub proof fn lemma_tokens_split(before: Seq<char>, separator: char, behind: Seq<char>)
    requires
        is_separator(separator),
    ensures
        tokens(before + seq![separator] + behind) == tokens(before) + tokens(behind),
    decreases before.len(),
{
    let s = before + seq![separator] + behind;
    let n = field_len(before);
    lemma_field_is_run(before);
    assert forall|k: int| 0 <= k < n implies !is_separator(s[k]) by {
        assert(s[k] == before[k]);
    }
    assert(s[n as int] == if n < before.len() {
        before[n as int]
    } else {
        separator
    });
    lemma_field_len(s, n as int);
    assert(s.take(n as int) == before.take(n as int));
    if n < before.len() {
        let rest = before.skip(n as int + 1);
        lemma_tokens_split(rest, separator, behind);
        assert(s.skip(n as int + 1) == rest + seq![separator] + behind);
    } else {
        assert(s.skip(n as int + 1) == behind);
    }
}

/// Whether `c` ends a token.
pub fn is_separator_char(c: char) -> (b: bool)
    ensures
        b == is_separator(c),
{
    let u: u32 = c as u32;
    c == ',' || (0x09 <= u && u <= 0x0D) || u == 0x20 || u == 0x85 || u == 0xA0 || u == 0x1680
        || (0x2000 <= u && u <= 0x200A) || u == 0x2028 || u == 0x2029 || u == 0x202F || u
        == 0x205F || u == 0x3000
}

fn is_digit_char(c: char) -> (b: bool)
    ensures
        b == is_digit(c),
{
    '0' <= c && c <= '9'
}

fn is_letter_char(c: char, letter: char) -> (b: bool)
    requires
        letter as u32 >= 32,
    ensures
        b == is_letter(c, letter),
{
    c == letter || c as u32 == letter as u32 - 32
}

/// The index behind the digits that start at `from`.
fn digits_end(s: &Vec<char>, from: usize) -> (to: usize)
    requires
        from <= s.len(),
    ensures
        to == from + digit_run(s@, from as int),
        from <= to <= s.len(),
{
    let mut to: usize = from;
    while to < s.len() && is_digit_char(s[to])
        invariant
            from <= to <= s.len(),
            forall|k: int| from <= k < to ==> is_digit(s@[k]),
        decreases s.len() - to,
    {
        to = to + 1;
    }
    proof {
        lemma_digit_run(s@, from as int, to as int);
    }
    to
}

/// Whether `s[at..]` is one of the three words.
fn is_special_at(s: &Vec<char>, at: usize) -> (b: bool)
    requires
        at <= s.len(),
    ensures
        b == is_special(s@.skip(at as int)),
{
    let ghost w = s@.skip(at as int);
    let n = s.len() - at;
    if n == 3 {
        let inf = is_letter_char(s[at], 'i') && is_letter_char(s[at + 1], 'n') && is_letter_char(
            s[at + 2],
            'f',
        );
        let nan = is_letter_char(s[at], 'n') && is_letter_char(s[at + 1], 'a') && is_letter_char(
            s[at + 2],
            'n',
        );
        proof {
            assert(w[0] == s@[at as int] && w[1] == s@[at + 1] && w[2] == s@[at + 2]);
            assert(inf == spells(w, seq!['i', 'n', 'f']));
            assert(nan == spells(w, seq!['n', 'a', 'n']));
        }
        inf || nan
    } else if n == 8 {
        let infinity = is_letter_char(s[at], 'i') && is_letter_char(s[at + 1], 'n')
            && is_letter_char(s[at + 2], 'f') && is_letter_char(s[at + 3], 'i') && is_letter_char(
            s[at + 4],
            'n',
        ) && is_letter_char(s[at + 5], 'i') && is_letter_char(s[at + 6], 't') && is_letter_char(
            s[at + 7],
            'y',
        );
        proof {
            assert(w[0] == s@[at as int] && w[1] == s@[at + 1] && w[2] == s@[at + 2] && w[3]
                == s@[at + 3]);
            assert(w[4] == s@[at + 4] && w[5] == s@[at + 5] && w[6] == s@[at + 6] && w[7]
                == s@[at + 7]);
            assert(infinity == spells(w, seq!['i', 'n', 'f', 'i', 'n', 'i', 't', 'y']));
        }
        infinity
    } else {
        false
    }
}

fn is_exponent_at(s: &Vec<char>, at: usize) -> (b: bool)
    requires
        at < s.len(),
    ensures
        b == is_exponent(s@, at as int),
{
    if !is_letter_char(s[at], 'e') {
        return false;
    }
    let sign = at + 1 < s.len() && (s[at + 1] == '+' || s[at + 1] == '-');
    let digits = if sign {
        at + 2
    } else {
        at + 1
    };
    digits < s.len() && digits_end(s, digits) == s.len()
}

fn is_decimal_at(s: &Vec<char>, at: usize) -> (b: bool)
    requires
        at <= s.len(),
    ensures
        b == is_decimal(s@, at as int),
{
    let dot = digits_end(s, at);
    let has_dot = dot < s.len() && s[dot] == '.';
    let end = if has_dot {
        digits_end(s, dot + 1)
    } else {
        dot
    };
    let digits = if has_dot {
        end - at - 1
    } else {
        end - at
    };
    digits >= 1 && (end == s.len() || is_exponent_at(s, end))
}

/// Whether a token is a number.
pub fn is_number_token(token: &Vec<char>) -> (b: bool)
    ensures
        b == is_number(token@),
{
    let at: usize = if token.len() > 0 && (token[0] == '+' || token[0] == '-') {
        1
    } else {
        0
    };
    is_special_at(token, at) || is_decimal_at(token, at)
}

/// Parses one line of text into a row of values: one slot per token, in
/// order, holding the token's text where the token is a number and nothing
/// where it is not. An empty line gives an empty row.
pub fn parse_line_to_values(line: &str) -> (values: Vec<Option<String>>)
    ensures
        values.deep_view() == line_values(line@),
{
    let chars = chars_of(line);
    let n = chars.len();
    let mut values: Vec<Option<String>> = Vec::new();
    let ghost mut done: Seq<Seq<char>> = Seq::empty();
    let mut i: usize = 0;
    proof {
        assert(chars@.skip(0) == chars@);
        assert(done + tokens(chars@) == tokens(chars@));
    }
    while i < n
        invariant
            n == chars.len(),
            i <= n,
            tokens(chars@) == done + tokens(chars@.skip(i as int)),
            values.deep_view() == done.map_values(|t: Seq<char>| value_of(t)),
        decreases n - i,
    {
        let ghost rest = chars@.skip(i as int);
        let mut end: usize = i;
        while end < n && !is_separator_char(chars[end])
            invariant
                n == chars.len(),
                i <= end <= n,
                forall|k: int| i <= k < end ==> !is_separator(chars@[k]),
            decreases n - end,
        {
            end = end + 1;
        }
        proof {
            assert forall|k: int| 0 <= k < end - i implies !is_separator(rest[k]) by {
                assert(rest[k] == chars@[i + k]);
            }
            lemma_field_len(rest, end - i);
            assert(end < n ==> rest.skip(end - i + 1) == chars@.skip(end + 1));
            assert(end == n ==> tokens(chars@.skip(n as int)) == Seq::<Seq<char>>::empty());
        }
        if end > i {
            let token = chars_between(&chars, i, end);
            let value = if is_number_token(&token) {
                Some(string_of(&token, 0, token.len()))
            } else {
                None
            };
            proof {
                assert(token@ == rest.take(end - i));
                assert(token@.subrange(0, token@.len() as int) == token@);
                assert(value.deep_view() == value_of(token@));
                let old_values = values.deep_view();
                let mapped = done.push(token@).map_values(|t: Seq<char>| value_of(t));
                assert(mapped == old_values.push(value_of(token@)));
                done = done.push(token@);
            }
            values.push(value);
            assert(values.deep_view() == done.map_values(|t: Seq<char>| value_of(t)));
        }
        i = if end < n {
            end + 1
        } else {
            end
        };
        assert(tokens(chars@) == done + tokens(chars@.skip(i as int)));
    }
    proof {
        assert(tokens(chars@.skip(n as int)) == Seq::<Seq<char>>::empty());
        assert(done + Seq::<Seq<char>>::empty() == done);
    }
    values
}

/// A copy of `chars[from..to]`.
fn chars_between(chars: &Vec<char>, from: usize, to: usize) -> (out: Vec<char>)
    requires
        from <= to <= chars.len(),
    ensures
        out@ == chars@.subrange(from as int, to as int),
{
    let mut out: Vec<char> = Vec::new();
    let mut i: usize = from;
    while i < to
        invariant
            from <= i <= to <= chars.len(),
            out@ == chars@.subrange(from as int, i as int),
        decreases to - i,
    {
        out.push(chars[i]);
        i = i + 1;
    }
    out
}

} // verus!

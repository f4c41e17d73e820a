//! Text helpers: decimal rendering of counters, the truncated text snippet of
//! a target element, and case normalisation of tag names.

use vstd::prelude::*;
use vstd::string::*;

verus! {

/// Longest text snippet, in characters, that is kept without truncation.
pub const MAX_TEXT_CHARS: usize = 50;

/// The character of a decimal digit `d < 10`.
pub open spec fn digit_char(d: nat) -> char {
    if d == 0 {
        '0'
    } else if d == 1 {
        '1'
    } else if d == 2 {
        '2'
    } else if d == 3 {
        '3'
    } else if d == 4 {
        '4'
    } else if d == 5 {
        '5'
    } else if d == 6 {
        '6'
    } else if d == 7 {
        '7'
    } else if d == 8 {
        '8'
    } else {
        '9'
    }
}

/// The decimal numeral of `n`, most significant digit first, without leading
/// zeros.
pub open spec fn decimal_digits(n: nat) -> Seq<char>
    decreases n,
{
    if n < 10 {
        seq![digit_char(n)]
    } else {
        decimal_digits(n / 10).push(digit_char(n % 10))
    }
}

/// The marker that follows a truncated snippet.
pub open spec fn ellipsis() -> Seq<char> {
    seq!['.', '.', '.']
}

/// The snippet kept of an element's rendered text: absent for empty text, the
/// text itself up to 50 characters, else its first 50 characters and the
/// marker.
pub open spec fn text_snippet(txt: Seq<char>) -> Option<Seq<char>> {
    if txt.len() > MAX_TEXT_CHARS as nat {
        Some(txt.subrange(0, MAX_TEXT_CHARS as int) + ellipsis())
    } else if txt.len() > 0 {
        Some(txt)
    } else {
        None
    }
}

/// The characters of an optional string.
pub open spec fn opt_text(o: Option<String>) -> Option<Seq<char>> {
    match o {
        Some(s) => Some(s@),
        None => None,
    }
}

/// A numeral is never empty, and has at least two digits from ten on.
pub proof fn lemma_decimal_digits_len(n: nat)
    ensures
        decimal_digits(n).len() >= 1,
        n >= 10 ==> decimal_digits(n).len() >= 2,
        n < 10 ==> decimal_digits(n).len() == 1,
    decreases n,
{
    if n >= 10 {
        lemma_decimal_digits_len(n / 10);
    }
}

/// Two numbers with the same numeral are the same number.
pub proof fn lemma_decimal_digits_injective(a: nat, b: nat)
    requires
        decimal_digits(a) == decimal_digits(b),
    ensures
        a == b,
    decreases a,
{
    lemma_decimal_digits_len(a);
    lemma_decimal_digits_len(b);
    if a < 10 {
        assert(decimal_digits(a)[0] == digit_char(a));
        assert(decimal_digits(b)[0] == digit_char(b));
    } else {
        let da = decimal_digits(a / 10);
        let db = decimal_digits(b / 10);
        assert(da.push(digit_char(a % 10)) == db.push(digit_char(b % 10)));
        assert(da.push(digit_char(a % 10)).drop_last() == da);
        assert(db.push(digit_char(b % 10)).drop_last() == db);
        assert(da.push(digit_char(a % 10)).last() == digit_char(a % 10));
        assert(db.push(digit_char(b % 10)).last() == digit_char(b % 10));
        lemma_decimal_digits_injective(a / 10, b / 10);
    }
}

fn digit_str(d: u64) -> (s: &'static str)
    requires
        d < 10,
    ensures
        s@ == seq![digit_char(d as nat)],
{
    proof {
        reveal_strlit("0");
        reveal_strlit("1");
        reveal_strlit("2");
        reveal_strlit("3");
        reveal_strlit("4");
        reveal_strlit("5");
        reveal_strlit("6");
        reveal_strlit("7");
        reveal_strlit("8");
        reveal_strlit("9");
    }
    let s = if d == 0 {
        "0"
    } else if d == 1 {
        "1"
    } else if d == 2 {
        "2"
    } else if d == 3 {
        "3"
    } else if d == 4 {
        "4"
    } else if d == 5 {
        "5"
    } else if d == 6 {
        "6"
    } else if d == 7 {
        "7"
    } else if d == 8 {
        "8"
    } else {
        "9"
    };
    assert(s@ =~= seq![digit_char(d as nat)]);
    s
}

/// Renders `n` in decimal.
pub fn decimal_string(n: u64) -> (s: String)
    ensures
        s@ == decimal_digits(n as nat),
    decreases n,
{
    if n < 10 {
        String::from_str(digit_str(n))
    } else {
        let head = decimal_string(n / 10);
        let s = head.concat(digit_str(n % 10));
        assert(s@ =~= decimal_digits((n / 10) as nat).push(digit_char((n % 10) as nat)));
        s
    }
}

/// Cuts an element's rendered text down to its snippet, counting characters,
/// not bytes.
pub fn truncate_text(txt: &str) -> (r: Option<String>)
    ensures
        opt_text(r) == text_snippet(txt@),
        r matches Some(s) ==> 1 <= s@.len() <= MAX_TEXT_CHARS + 3,
{
    let n: usize = txt.unicode_len();
    if n > MAX_TEXT_CHARS {
        let head = String::from_str(txt.substring_char(0, MAX_TEXT_CHARS));
        proof {
            reveal_strlit("...");
            assert("..."@ =~= ellipsis());
        }
        Some(head.concat("..."))
    } else if n > 0 {
        Some(String::from_str(txt))
    } else {
        None
    }
}

/// A snippet has at most 53 characters, and a truncated one keeps the first
/// 50 characters of the text whole.
pub proof fn lemma_text_snippet_bounded(txt: Seq<char>)
    ensures
        match text_snippet(txt) {
            Some(s) => 1 <= s.len() <= MAX_TEXT_CHARS as nat + 3
                && (txt.len() <= MAX_TEXT_CHARS as nat ==> s == txt)
                && (txt.len() > MAX_TEXT_CHARS as nat ==> s.len() == MAX_TEXT_CHARS as nat + 3
                    && s.subrange(0, MAX_TEXT_CHARS as int) == txt.subrange(0, MAX_TEXT_CHARS as int)
                    && s.subrange(MAX_TEXT_CHARS as int, s.len() as int) == ellipsis()),
            None => txt.len() == 0,
        },
{
    if txt.len() > MAX_TEXT_CHARS as nat {
        let s = txt.subrange(0, MAX_TEXT_CHARS as int) + ellipsis();
        assert(s.subrange(0, MAX_TEXT_CHARS as int) =~= txt.subrange(0, MAX_TEXT_CHARS as int));
        assert(s.subrange(MAX_TEXT_CHARS as int, s.len() as int) =~= ellipsis());
    }
}

/// The lowercase form that `str::to_lowercase` gives for a text: a function of
/// the text alone.
pub uninterp spec fn lowercase(s: Seq<char>) -> Seq<char>;

/// Calls `str::to_lowercase` of std. Trusted: the result is the lowercase
/// form of the argument, which the contract names and does not spell out.
#[verifier::external_body]
pub(crate) fn to_lowercase(s: &str) -> (r: String)
    ensures
        r@ == lowercase(s@),
{
    s.to_lowercase()
}

} // verus!

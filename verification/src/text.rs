//! Small things on text: white space, the first word of a line, and
//! numbers in decimal.
use vstd::prelude::*;
use vstd::std_specs::iter::IteratorSpec;
use vstd::string::*;

verus! {

/// White space, as Unicode defines it (the property `White_Space`).
pub open spec fn white_space(c: char) -> bool {
    let code = c as u32;
    ||| 0x09 <= code <= 0x0D
    ||| code == 0x20
    ||| code == 0x85
    ||| code == 0xA0
    ||| code == 0x1680
    ||| 0x2000 <= code <= 0x200A
    ||| code == 0x2028
    ||| code == 0x2029
    ||| code == 0x202F
    ||| code == 0x205F
    ||| code == 0x3000
}

/// Whether `c` is white space.
pub fn is_white_space(c: char) -> (b: bool)
    ensures
        b == white_space(c),
{
    let code = c as u32;
    (0x09 <= code && code <= 0x0D) || code == 0x20 || code == 0x85 || code == 0xA0 || code
        == 0x1680 || (0x2000 <= code && code <= 0x200A) || code == 0x2028 || code == 0x2029
        || code == 0x202F || code == 0x205F || code == 0x3000
}

/// `text` without its leading white space.
pub open spec fn skip_spaces(text: Seq<char>) -> Seq<char>
    decreases text.len(),
{
    if text.len() > 0 && white_space(text.first()) {
        skip_spaces(text.drop_first())
    } else {
        text
    }
}

/// The longest prefix of `text` that holds no white space.
pub open spec fn word(text: Seq<char>) -> Seq<char>
    decreases text.len(),
{
    if text.len() == 0 || white_space(text.first()) {
        Seq::empty()
    } else {
        seq![text.first()] + word(text.drop_first())
    }
}

/// The first word of `text`: what stands between its leading white space
/// and the next white space. Empty where `text` is blank.
pub open spec fn first_token(text: Seq<char>) -> Seq<char> {
    word(skip_spaces(text))
}

/// `text` holds nothing but white space.
pub open spec fn is_blank(text: Seq<char>) -> bool {
    skip_spaces(text).len() == 0
}

/// The characters of `text`.
pub fn chars_of(text: &str) -> (chars: Vec<char>)
    ensures
        chars@ == text@,
{
    broadcast use vstd::string::group_string_axioms;

    let mut chars: Vec<char> = Vec::new();
    let mut rest = text.chars();
    assert(chars@ + rest.remaining() =~= text@);
    loop
        invariant
            chars@ + rest.remaining() == text@,
            rest.decrease() is Some,
        ensures
            chars@ == text@,
        decreases rest.decrease()->0,
    {
        let ghost before = rest.remaining();
        let ghost seen = chars@;
        match rest.next() {
            Some(c) => {
                chars.push(c);
                assert(chars@ + rest.remaining() =~= seen + before);
            },
            None => {
                assert(seen + before =~= seen);
                break ;
            },
        }
    }
    chars
}

/// How many characters of white space `chars` begins with.
fn leading_spaces(chars: &Vec<char>) -> (n: usize)
    ensures
        n <= chars.len(),
        skip_spaces(chars@) == chars@.skip(n as int),
        n < chars.len() ==> !white_space(chars[n as int]),
{
    let mut n: usize = 0;
    assert(chars@.skip(0) =~= chars@);
    while n < chars.len() && is_white_space(chars[n])
        invariant
            n <= chars.len(),
            skip_spaces(chars@) == skip_spaces(chars@.skip(n as int)),
        decreases chars.len() - n,
    {
        assert(chars@.skip(n as int).first() == chars[n as int]);
        assert(chars@.skip(n as int).drop_first() =~= chars@.skip(n + 1));
        n += 1;
    }
    proof {
        let rest = chars@.skip(n as int);
        if n < chars.len() {
            assert(rest.first() == chars[n as int]);
        }
    }
    n
}

/// Whether `text` holds nothing but white space.
pub fn blank(text: &str) -> (b: bool)
    ensures
        b == is_blank(text@),
{
    let chars = chars_of(text);
    leading_spaces(&chars) == chars.len()
}

/// Whether `text` holds a space.
pub fn has_space(text: &str) -> (b: bool)
    ensures
        b == text@.contains(' '),
{
    let chars = chars_of(text);
    let mut i: usize = 0;
    while i < chars.len()
        invariant
            i <= chars.len(),
            chars@ == text@,
            forall|j: int| 0 <= j < i ==> chars[j] != ' ',
        decreases chars.len() - i,
    {
        if chars[i] == ' ' {
            assert(text@[i as int] == ' ');
            return true;
        }
        i += 1;
    }
    false
}

/// The first word of `text`.
pub fn first_word(text: &str) -> (token: String)
    ensures
        token@ == first_token(text@),
{
    let chars = chars_of(text);
    let start = leading_spaces(&chars);
    let mut end: usize = start;
    assert(chars@.subrange(start as int, start as int) + word(chars@.skip(start as int)) =~= word(
        chars@.skip(start as int),
    ));
    while end < chars.len() && !is_white_space(chars[end])
        invariant
            start <= end <= chars.len(),
            word(chars@.skip(start as int)) == chars@.subrange(start as int, end as int) + word(
                chars@.skip(end as int),
            ),
        decreases chars.len() - end,
    {
        proof {
            let rest = chars@.skip(end as int);
            assert(rest.first() == chars[end as int]);
            assert(rest.drop_first() =~= chars@.skip(end + 1));
            assert(chars@.subrange(start as int, end as int) + (seq![rest.first()] + word(
                rest.drop_first(),
            )) =~= chars@.subrange(start as int, end + 1) + word(chars@.skip(end + 1)));
        }
        end += 1;
    }
    proof {
        let rest = chars@.skip(end as int);
        if end < chars.len() {
            assert(rest.first() == chars[end as int]);
        }
        assert(word(rest) =~= Seq::<char>::empty());
        assert(chars@.subrange(start as int, end as int) + Seq::<char>::empty()
            =~= chars@.subrange(start as int, end as int));
    }
    String::from_str(text.substring_char(start, end))
}

/// The decimal digit `d`.
pub open spec fn digit(d: int) -> Seq<char> {
    if d == 0 {
        "0"@
    } else if d == 1 {
        "1"@
    } else if d == 2 {
        "2"@
    } else if d == 3 {
        "3"@
    } else if d == 4 {
        "4"@
    } else if d == 5 {
        "5"@
    } else if d == 6 {
        "6"@
    } else if d == 7 {
        "7"@
    } else if d == 8 {
        "8"@
    } else {
        "9"@
    }
}

/// `n` in decimal, without leading zeros.
pub open spec fn decimal(n: nat) -> Seq<char>
    decreases n,
{
    if n < 10 {
        digit(n as int)
    } else {
        decimal(n / 10) + digit((n % 10) as int)
    }
}

fn digit_text(d: u128) -> (text: &'static str)
    requires
        d < 10,
    ensures
        text@ == digit(d as int),
{
    if d == 0 {
        "0"
    } else if d == 1 {
        "1"
    } else if d == 2 {
        "2"
    } else if d == 3 {
        "3"
    } else if d == 4 {
        "4"
    } else if d == 5 {
        "5"
    } else if d == 6 {
        "6"
    } else if d == 7 {
        "7"
    } else if d == 8 {
        "8"
    } else {
        "9"
    }
}

/// Writes `n` in decimal.
pub fn decimal_text(n: u128) -> (text: String)
    ensures
        text@ == decimal(n as nat),
{
    let mut text = String::from_str(digit_text(n % 10));
    let mut rest: u128 = n / 10;
    while rest > 0
        invariant
            decimal(n as nat) == if rest > 0 {
                decimal(rest as nat) + text@
            } else {
                text@
            },
        decreases rest,
    {
        let ghost low = text@;
        text = String::from_str(digit_text(rest % 10)).concat(text.as_str());
        proof {
            if rest >= 10 {
                assert((decimal((rest / 10) as nat) + digit((rest % 10) as int)) + low =~= decimal(
                    (rest / 10) as nat,
                ) + (digit((rest % 10) as int) + low));
            }
        }
        rest = rest / 10;
    }
    text
}

} // verus!

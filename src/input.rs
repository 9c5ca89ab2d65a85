use vstd::prelude::*;
use vstd::string::*;

verus! {

/// The meaning of a line typed in answer to an index prompt.
#[derive(Clone, Copy, Debug, PartialEq, Eq, Structural)]
pub enum IndexReply {
    /// A valid index.
    Chosen(usize),
    /// `-1`, where skipping is allowed.
    Skipped,
    /// A number that is not below the number of choices.
    OutOfRange,
    /// Anything else.
    NotANumber,
}

/// What `str::trim` makes of a text: it without leading and trailing
/// white space.
pub uninterp spec fn trimmed(s: Seq<char>) -> Seq<char>;

/// Relies on `str::trim`: the result is determined by the text alone.
#[verifier::external_body]
fn trim_text<'a>(s: &'a str) -> (r: &'a str)
    ensures
        r@ == trimmed(s@),
{
    s.trim()
}

/// Whether `c` is an ASCII decimal digit.
pub open spec fn is_digit(c: char) -> bool {
    '0' <= c <= '9'
}

/// The value of a string of decimal digits.
pub open spec fn digits_value(s: Seq<char>) -> int
    decreases s.len(),
{
    if s.len() == 0 {
        0
    } else {
        digits_value(s.drop_last()) * 10 + (s.last() as int - '0' as int)
    }
}

/// The digits of an unsigned number: the text without one leading `+`.
pub open spec fn unsigned_digits(s: Seq<char>) -> Seq<char> {
    if s.len() > 0 && s[0] == '+' {
        s.skip(1)
    } else {
        s
    }
}

/// The number that `s` denotes, if it is one or more decimal digits after
/// an optional `+` and fits in a `usize`.
pub open spec fn parsed_index(s: Seq<char>) -> Option<int> {
    let d = unsigned_digits(s);
    if d.len() > 0 && (forall|i: int| 0 <= i < d.len() ==> is_digit(#[trigger] d[i]))
        && digits_value(d) <= usize::MAX {
        Some(digits_value(d))
    } else {
        None
    }
}

/// The meaning of the text `s` (already trimmed) as an index below `max`,
/// `-1` meaning a skip where `allow_skip` holds.
pub open spec fn index_reply_of(s: Seq<char>, max: usize, allow_skip: bool) -> IndexReply {
    if allow_skip && s == seq!['-', '1'] {
        IndexReply::Skipped
    } else {
        match parsed_index(s) {
            Some(n) => if n < max {
                IndexReply::Chosen(n as usize)
            } else {
                IndexReply::OutOfRange
            },
            None => IndexReply::NotANumber,
        }
    }
}

proof fn lemma_digits_grow(s: Seq<char>, j: int, k: int)
    requires
        0 <= j <= k <= s.len(),
        forall|i: int| 0 <= i < s.len() ==> is_digit(#[trigger] s[i]),
    ensures
        digits_value(s.take(j)) <= digits_value(s.take(k)),
    decreases k - j,
{
    if j < k {
        lemma_digits_grow(s, j, k - 1);
        assert(s.take(k).drop_last() =~= s.take(k - 1));
        assert(digits_value(s.take(k - 1)) >= 0) by {
            lemma_digits_nonneg(s.take(k - 1));
        }
    }
}

proof fn lemma_digits_nonneg(s: Seq<char>)
    requires
        forall|i: int| 0 <= i < s.len() ==> is_digit(#[trigger] s[i]),
    ensures
        digits_value(s) >= 0,
    decreases s.len(),
{
    if s.len() > 0 {
        lemma_digits_nonneg(s.drop_last());
    }
}

/// The number written in `s` from char `from` on, if all of it is decimal
/// digits (at least one) and the value fits in a `usize`.
fn parse_digits(s: &str, from: usize) -> (r: Option<usize>)
    requires
        from <= s@.len(),
    ensures
        ({
            let d = s@.skip(from as int);
            r == if d.len() > 0 && (forall|i: int| 0 <= i < d.len() ==> is_digit(#[trigger] d[i]))
                && digits_value(d) <= usize::MAX {
                Some(digits_value(d) as usize)
            } else {
                None::<usize>
            }
        }),
{
    let ghost d = s@.skip(from as int);
    let n = s.unicode_len();
    if n == from {
        return None;
    }
    let mut i: usize = from;
    let mut value: usize = 0;
    while i < n
        invariant
            from <= i <= n,
            n == s@.len(),
            d == s@.skip(from as int),
            forall|j: int| 0 <= j < i - from ==> is_digit(#[trigger] d[j]),
            value as int == digits_value(d.take(i - from)),
        decreases n - i,
    {
        let c = s.get_char(i);
        assert(c == d[i - from]);
        if !('0' <= c && c <= '9') {
            return None;
        }
        let digit = (c as u32 - '0' as u32) as usize;
        assert(d.take(i - from + 1).drop_last() =~= d.take(i - from));
        let next = match value.checked_mul(10) {
            Some(v) => v.checked_add(digit),
            None => None,
        };
        match next {
            Some(v) => {
                value = v;
            },
            None => {
                proof {
                    assert forall|j: int| 0 <= j < i - from + 1 implies is_digit(
                        #[trigger] d.take(i - from + 1)[j],
                    ) by {}
                    if forall|j: int| 0 <= j < d.len() ==> is_digit(#[trigger] d[j]) {
                        lemma_digits_grow(d, i - from + 1, d.len() as int);
                        assert(d.take(d.len() as int) =~= d);
                    }
                }
                return None;
            },
        }
        i = i + 1;
    }
    assert(d.take(i - from) =~= d);
    Some(value)
}

/// The meaning of an already trimmed text as an index below `max`.
pub fn interpret_index(text: &str, max: usize, allow_skip: bool) -> (r: IndexReply)
    ensures
        r == index_reply_of(text@, max, allow_skip),
{
    let n = text.unicode_len();
    if allow_skip && n == 2 && text.get_char(0) == '-' && text.get_char(1) == '1' {
        assert(text@ =~= seq!['-', '1']);
        return IndexReply::Skipped;
    }
    proof {
        if allow_skip && text@ == seq!['-', '1'] {
            assert(text@[0] == '-');
            assert(text@[1] == '1');
        }
    }
    let from: usize = if n > 0 && text.get_char(0) == '+' {
        1
    } else {
        0
    };
    assert(unsigned_digits(text@) =~= text@.skip(from as int));
    let parsed = parse_digits(text, from);
    proof {
        let d = unsigned_digits(text@);
        if forall|i: int| 0 <= i < d.len() ==> is_digit(#[trigger] d[i]) {
            lemma_digits_nonneg(d);
        }
    }
    match parsed {
        Some(idx) => if idx < max {
            IndexReply::Chosen(idx)
        } else {
            IndexReply::OutOfRange
        },
        None => IndexReply::NotANumber,
    }
}

/// The meaning of a line typed in answer to an index prompt: trimmed of
/// white space, then read as an index below `max`, `-1` meaning a skip
/// where `allow_skip` holds.
pub fn index_reply(line: &str, max: usize, allow_skip: bool) -> (r: IndexReply)
    ensures
        r == index_reply_of(trimmed(line@), max, allow_skip),
{
    let text = trim_text(line);
    interpret_index(text, max, allow_skip)
}

} // verus!

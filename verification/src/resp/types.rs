//! Typed protocol values and their wire encoding.

use vstd::prelude::*;

use crate::resp::errors::Error;
use crate::resp::errors::ErrorVal;

verus! {

/// A typed protocol value: the in-memory form of one wire message.
///
/// Length fields count characters, not bytes, a deliberate choice: the
/// framing is line-oriented text and its mathematical model is the
/// character sequence, so the character is the unit throughout. For
/// ASCII payloads the two counts coincide.
#[derive(Debug, PartialEq, Eq)]
pub enum RespType {
    /// A length-prefixed string; `len == 0` is reserved to mean absent.
    BulkString { len: usize, value: String },
    /// A short trusted status string.
    SimpleString { value: String },
    /// An ordered, fixed-length sequence of protocol values.
    Array { len: usize, values: Vec<RespType> },
    /// An error, rendered with a leading `-` on the wire.
    SimpleError(Error),
    /// Explicit absence; encoded like a zero-length bulk string.
    Null,
}

/// The mathematical abstraction of a protocol value: the same shape over
/// character sequences and unbounded integers.
pub enum RespVal {
    BulkString { len: int, value: Seq<char> },
    SimpleString { value: Seq<char> },
    Array { len: int, values: Seq<RespVal> },
    SimpleError(ErrorVal),
    Null,
}

impl DeepView for RespType {
    type V = RespVal;

    open spec fn deep_view(&self) -> RespVal
        decreases self,
    {
        match self {
            RespType::BulkString { len, value } => RespVal::BulkString {
                len: *len as int,
                value: value@,
            },
            RespType::SimpleString { value } => RespVal::SimpleString { value: value@ },
            RespType::Array { len, values } => RespVal::Array {
                len: *len as int,
                values: Seq::new(
                    values@.len(),
                    |i: int|
                        if 0 <= i < values@.len() {
                            values@[i].deep_view()
                        } else {
                            RespVal::Null
                        },
                ),
            },
            RespType::SimpleError(e) => RespVal::SimpleError(e.deep_view()),
            RespType::Null => RespVal::Null,
        }
    }
}

/// The character for one decimal digit.
pub open spec fn spec_digit_char(d: nat) -> char {
    if d == 0 {
        '0'
    } else if d == 1 {
        '1'
    } else if d == 2 {
        '2'
    } else if d == 3 {
        '3'
    } else if d == 4 {
        '4'
    } else if d == 5 {
        '5'
    } else if d == 6 {
        '6'
    } else if d == 7 {
        '7'
    } else if d == 8 {
        '8'
    } else {
        '9'
    }
}

/// The usual decimal notation of `n`: most significant digit first, no
/// leading zeros (a single `'0'` for zero).
pub open spec fn spec_dec_digits(n: nat) -> Seq<char>
    decreases n,
{
    if n < 10 {
        seq![spec_digit_char(n)]
    } else {
        spec_dec_digits(n / 10) + seq![spec_digit_char(n % 10)]
    }
}

fn digit_str(d: usize) -> (r: &'static str)
    requires
        d < 10,
    ensures
        r@ == seq![spec_digit_char(d as nat)],
{
    proof {
        reveal_strlit("0");
        reveal_strlit("1");
        reveal_strlit("2");
        reveal_strlit("3");
        reveal_strlit("4");
        reveal_strlit("5");
        reveal_strlit("6");
        reveal_strlit("7");
        reveal_strlit("8");
        reveal_strlit("9");
    }
    let r = if d == 0 {
        "0"
    } else if d == 1 {
        "1"
    } else if d == 2 {
        "2"
    } else if d == 3 {
        "3"
    } else if d == 4 {
        "4"
    } else if d == 5 {
        "5"
    } else if d == 6 {
        "6"
    } else if d == 7 {
        "7"
    } else if d == 8 {
        "8"
    } else {
        "9"
    };
    proof {
        assert(r@ =~= seq![spec_digit_char(d as nat)]);
    }
    r
}

/// Renders `n` in decimal, exactly as `spec_dec_digits` states it.
pub fn usize_to_string(n: usize) -> (r: String)
    ensures
        r@ == spec_dec_digits(n as nat),
    decreases n,
{
    if n < 10 {
        String::from_str(digit_str(n))
    } else {
        let mut s = usize_to_string(n / 10);
        s.append(digit_str(n % 10));
        s
    }
}

/// Renders `n` in decimal, exactly as `spec_dec_digits` states it.
pub fn u64_to_string(n: u64) -> (r: String)
    ensures
        r@ == spec_dec_digits(n as nat),
    decreases n,
{
    if n < 10 {
        String::from_str(digit_str(n as usize))
    } else {
        let mut s = u64_to_string(n / 10);
        s.append(digit_str((n % 10) as usize));
        s
    }
}

impl RespVal {
    /// The exact wire encoding of a protocol value. A zero-length bulk
    /// string and `Null` collapse to the same null encoding.
    pub open spec fn spec_encode(self) -> Seq<char>
        decreases self,
    {
        match self {
            RespVal::BulkString { len, value } => if len == 0 {
                "$-1\r\n"@
            } else {
                "$"@ + spec_dec_digits(len as nat) + "\r\n"@ + value + "\r\n"@
            },
            RespVal::SimpleString { value } => "+"@ + value + "\r\n"@,
            RespVal::Array { len, values } => "*"@ + spec_dec_digits(len as nat) + "\r\n"@
                + spec_encode_seq(values),
            RespVal::SimpleError(e) => "-"@ + e.spec_message() + "\r\n"@,
            RespVal::Null => "$-1\r\n"@,
        }
    }
}

/// The concatenation of the encodings of a sequence of values, in order.
pub open spec fn spec_encode_seq(vs: Seq<RespVal>) -> Seq<char>
    decreases vs,
{
    if vs.len() == 0 {
        Seq::empty()
    } else {
        vs[0].spec_encode() + spec_encode_seq(vs.subrange(1, vs.len() as int))
    }
}

impl RespType {
    /// Serializes this value to its wire form, exactly as `spec_encode`
    /// states it.
    pub fn to_string(&self) -> (r: String)
        ensures
            r@ == self.deep_view().spec_encode(),
        decreases self,
    {
        match self {
            RespType::BulkString { len, value } => {
                if *len == 0 {
                    String::from_str("$-1\r\n")
                } else {
                    let mut s = String::from_str("$");
                    let digits = usize_to_string(*len);
                    s.append(digits.as_str());
                    s.append("\r\n");
                    s.append(value.as_str());
                    s.append("\r\n");
                    proof {
                        assert(s@ =~= self.deep_view().spec_encode());
                    }
                    s
                }
            },
            RespType::SimpleString { value } => {
                let mut s = String::from_str("+");
                s.append(value.as_str());
                s.append("\r\n");
                proof {
                    assert(s@ =~= self.deep_view().spec_encode());
                }
                s
            },
            RespType::Array { len, values } => {
                let mut s = String::from_str("*");
                let digits = usize_to_string(*len);
                s.append(digits.as_str());
                s.append("\r\n");
                let ghost header = s@;
                let ghost vals = self.deep_view()->Array_values;
                let mut i: usize = 0;
                while i < values.len()
                    invariant
                        i <= values.len(),
                        *self is Array,
                        (*self)->Array_values == *values,
                        vals == Seq::new(values@.len(), |k: int|
                            if 0 <= k < values@.len() {
                                values@[k].deep_view()
                            } else {
                                RespVal::Null
                            }),
                        s@ == header + spec_encode_seq(vals.subrange(0, i as int)),
                    decreases values.len() - i,
                {
                    proof {
                        assert(decreases_to!(*self => (*self)->Array_values));
                        assert((*self)->Array_values == *values);
                        assert(decreases_to!(*values => values@));
                        assert(decreases_to!(values@ => values@[i as int]));
                    }
                    let piece = values[i].to_string();
                    s.append(piece.as_str());
                    proof {
                        lemma_encode_seq_snoc(vals, i as int);
                    }
                    i += 1;
                }
                proof {
                    assert(vals.subrange(0, values@.len() as int) =~= vals);
                    assert(s@ =~= self.deep_view().spec_encode());
                }
                s
            },
            RespType::SimpleError(e) => {
                let mut s = String::from_str("-");
                let msg = e.to_string();
                s.append(msg.as_str());
                s.append("\r\n");
                proof {
                    assert(s@ =~= self.deep_view().spec_encode());
                }
                s
            },
            RespType::Null => String::from_str("$-1\r\n"),
        }
    }
}

/// Extending the encoded prefix by one value appends that value's encoding.
proof fn lemma_encode_seq_snoc(vs: Seq<RespVal>, i: int)
    requires
        0 <= i < vs.len(),
    ensures
        spec_encode_seq(vs.subrange(0, i + 1)) == spec_encode_seq(vs.subrange(0, i))
            + vs[i].spec_encode(),
    decreases i,
{
    if i == 0 {
        let s1 = vs.subrange(0, 1);
        let rest = s1.subrange(1, 1);
        assert(rest.len() == 0);
        assert(spec_encode_seq(rest) == Seq::<char>::empty());
        assert(spec_encode_seq(s1) == s1[0].spec_encode() + spec_encode_seq(rest));
        assert(spec_encode_seq(vs.subrange(0, 0)) == Seq::<char>::empty());
        assert(s1[0] == vs[0]);
        assert(s1[0].spec_encode() + spec_encode_seq(rest) =~= vs[0].spec_encode());
        assert(spec_encode_seq(vs.subrange(0, 0)) + vs[0].spec_encode() =~= vs[0].spec_encode());
    } else {
        let a = vs.subrange(0, i + 1);
        let b = vs.subrange(0, i);
        lemma_encode_seq_snoc(vs.subrange(1, vs.len() as int), i - 1);
        assert(a.subrange(1, a.len() as int) =~= vs.subrange(1, vs.len() as int).subrange(
            0,
            i,
        ));
        assert(b.subrange(1, b.len() as int) =~= vs.subrange(1, vs.len() as int).subrange(
            0,
            i - 1,
        ));
        assert(a[0] == vs[0] && b[0] == vs[0]);
        assert(vs.subrange(1, vs.len() as int)[i - 1] == vs[i]);
        assert(spec_encode_seq(a) =~= spec_encode_seq(b) + vs[i].spec_encode());
    }
}

/// Whether `c` is a decimal digit.
pub open spec fn spec_is_digit(c: char) -> bool {
    '0' as int <= c as int <= '9' as int
}

/// Whether every character of `s` is a decimal digit.
pub open spec fn spec_all_digits(s: Seq<char>) -> bool {
    forall|i: int| 0 <= i < s.len() ==> spec_is_digit(#[trigger] s[i])
}

/// The value of `s` read as a decimal numeral, most significant digit
/// first.
pub open spec fn spec_digits_val(s: Seq<char>) -> int
    decreases s.len(),
{
    if s.len() == 0 {
        0
    } else {
        spec_digits_val(s.drop_last()) * 10 + (s.last() as int - '0' as int)
    }
}

/// The digits of a numeral, once past an optional leading plus sign.
pub open spec fn spec_numeral_digits(s: Seq<char>) -> Seq<char> {
    if s.len() > 0 && s[0] == '+' {
        s.subrange(1, s.len() as int)
    } else {
        s
    }
}

/// What reading a length field yields: the value of a numeral made of an
/// optional leading plus sign and at least one digit, if it fits in
/// `usize`, and nothing otherwise.
pub open spec fn spec_parse_usize(s: Seq<char>) -> Option<int> {
    let d = spec_numeral_digits(s);
    if d.len() > 0 && spec_all_digits(d) && spec_digits_val(d) <= usize::MAX as int {
        Some(spec_digits_val(d))
    } else {
        None
    }
}

proof fn lemma_digits_val_nonneg(s: Seq<char>)
    requires
        spec_all_digits(s),
    ensures
        spec_digits_val(s) >= 0,
    decreases s.len(),
{
    if s.len() > 0 {
        assert(spec_all_digits(s.drop_last())) by {
            assert(forall|i: int| 0 <= i < s.len() - 1 ==> s.drop_last()[i] == #[trigger] s[i]);
        }
        lemma_digits_val_nonneg(s.drop_last());
    }
}

/// A longer all-digit numeral never has a smaller value.
pub proof fn lemma_digits_val_prefix_le(s: Seq<char>, j: int)
    requires
        spec_all_digits(s),
        0 <= j <= s.len(),
    ensures
        spec_digits_val(s.subrange(0, j)) <= spec_digits_val(s),
    decreases s.len() - j,
{
    if j == s.len() {
        assert(s.subrange(0, j) =~= s);
    } else {
        lemma_digits_val_prefix_le(s, j + 1);
        let a = s.subrange(0, j);
        let b = s.subrange(0, j + 1);
        assert(b.drop_last() =~= a);
        assert(spec_all_digits(a)) by {
            assert(forall|i: int| 0 <= i < j ==> a[i] == #[trigger] s[i]);
        }
        lemma_digits_val_nonneg(a);
        assert(spec_digits_val(b) == spec_digits_val(a) * 10 + (b.last() as int - '0' as int));
        assert(spec_is_digit(b.last()));
        assert(spec_digits_val(a) * 10 >= spec_digits_val(a));
    }
}

/// Reads the decimal numeral in `line` from `start` to the end, exactly as
/// `spec_parse_usize` states it.
fn parse_usize_from(line: &str, n: usize, start: usize) -> (r: Option<usize>)
    requires
        n == line@.len(),
        start <= n,
    ensures
        match r {
            Some(v) => spec_parse_usize(line@.subrange(start as int, line@.len() as int))
                == Some(v as int),
            None => spec_parse_usize(line@.subrange(start as int, line@.len() as int))
                is None,
        },
{
    let ghost field = line@.subrange(start as int, line@.len() as int);
    let first_digit = if start < n && line.get_char(start) == '+' {
        start + 1
    } else {
        start
    };
    let ghost digits = line@.subrange(first_digit as int, line@.len() as int);
    proof {
        assert(spec_numeral_digits(field) =~= digits);
    }
    if first_digit == n {
        return None;
    }
    let mut acc: usize = 0;
    let mut i: usize = first_digit;
    while i < n
        invariant
            n == line@.len(),
            first_digit <= i <= n,
            field == line@.subrange(start as int, line@.len() as int),
            digits == line@.subrange(first_digit as int, line@.len() as int),
            spec_numeral_digits(field) == digits,
            spec_all_digits(line@.subrange(first_digit as int, i as int)),
            acc as int == spec_digits_val(line@.subrange(first_digit as int, i as int)),
        decreases n - i,
    {
        let c = line.get_char(i);
        let d = c as u32;
        if d < 48 || d > 57 {
            proof {
                assert(!spec_is_digit(digits[i - first_digit]));
            }
            return None;
        }
        let ghost prefix = line@.subrange(first_digit as int, i as int);
        let ghost prefix1 = line@.subrange(first_digit as int, i + 1 as int);
        proof {
            assert(prefix1.drop_last() =~= prefix);
            assert(prefix1.last() == line@[i as int]);
            assert(spec_all_digits(prefix1)) by {
                assert(forall|k: int| 0 <= k < prefix1.len() ==> prefix1[k]
                    == #[trigger] line@[first_digit + k]);
            }
        }
        let step = match acc.checked_mul(10) {
            Some(m) => m.checked_add((d - 48) as usize),
            None => None,
        };
        match step {
            Some(v) => {
                acc = v;
            },
            None => {
                proof {
                    assert(spec_digits_val(prefix1) > usize::MAX as int);
                    if spec_all_digits(digits) {
                        lemma_digits_val_prefix_le(digits, i + 1 - first_digit);
                        assert(digits.subrange(0, i + 1 - first_digit) =~= prefix1);
                    }
                }
                return None;
            },
        }
        i += 1;
    }
    proof {
        assert(line@.subrange(first_digit as int, i as int) =~= digits);
    }
    Some(acc)
}

/// The index of the first newline in `s`, if any.
pub open spec fn spec_line_break(s: Seq<char>) -> Option<int>
    decreases s.len(),
{
    if s.len() == 0 {
        None
    } else if s[0] == '\n' {
        Some(0)
    } else {
        match spec_line_break(s.subrange(1, s.len() as int)) {
            None => None,
            Some(i) => Some(i + 1),
        }
    }
}

/// One line as the reader keeps it: a carriage return standing right
/// before the line break is dropped.
pub open spec fn spec_strip_cr(l: Seq<char>) -> Seq<char> {
    if l.len() > 0 && l.last() == '\r' {
        l.drop_last()
    } else {
        l
    }
}

/// `s` split at newlines, each piece stripped of a trailing carriage
/// return; a final line break opens no empty last line.
pub open spec fn spec_lines(s: Seq<char>) -> Seq<Seq<char>>
    decreases s.len(),
    via spec_lines_decreases
{
    if s.len() == 0 {
        Seq::empty()
    } else {
        match spec_line_break(s) {
            None => seq![s],
            Some(i) => seq![spec_strip_cr(s.subrange(0, i))] + spec_lines(
                s.subrange(i + 1, s.len() as int),
            ),
        }
    }
}

#[via_fn]
proof fn spec_lines_decreases(s: Seq<char>) {
    lemma_line_break_props(s);
}

proof fn lemma_line_break_props(s: Seq<char>)
    ensures
        match spec_line_break(s) {
            None => forall|i: int| 0 <= i < s.len() ==> #[trigger] s[i] != '\n',
            Some(j) => 0 <= j < s.len() && s[j] == '\n' && forall|i: int|
                0 <= i < j ==> #[trigger] s[i] != '\n',
        },
    decreases s.len(),
{
    if s.len() > 0 && s[0] != '\n' {
        lemma_line_break_props(s.subrange(1, s.len() as int));
        assert(forall|i: int| 1 <= i < s.len() ==> s.subrange(1, s.len() as int)[i - 1]
            == #[trigger] s[i]);
    }
}

proof fn lemma_line_break_at(s: Seq<char>, j: int)
    requires
        0 <= j < s.len(),
        s[j] == '\n',
        forall|i: int| 0 <= i < j ==> #[trigger] s[i] != '\n',
    ensures
        spec_line_break(s) == Some(j),
    decreases j,
{
    if j > 0 {
        let t = s.subrange(1, s.len() as int);
        assert(forall|i: int| 0 <= i < j - 1 ==> t[i] == #[trigger] s[i + 1]);
        assert(t[j - 1] == s[j]);
        lemma_line_break_at(t, j - 1);
    }
}

proof fn lemma_line_break_none(s: Seq<char>)
    requires
        forall|i: int| 0 <= i < s.len() ==> #[trigger] s[i] != '\n',
    ensures
        spec_line_break(s) is None,
    decreases s.len(),
{
    if s.len() > 0 {
        let t = s.subrange(1, s.len() as int);
        assert(forall|i: int| 0 <= i < t.len() ==> t[i] == #[trigger] s[i + 1]);
        lemma_line_break_none(t);
    }
}

/// Splits `s` into its lines, exactly as `spec_lines` states it.
pub fn split_lines(s: &str) -> (r: Vec<String>)
    ensures
        r.deep_view() == spec_lines(s@),
{
    let n = s.unicode_len();
    let mut r: Vec<String> = Vec::new();
    let mut pos: usize = 0;
    proof {
        assert(s@.subrange(0, n as int) =~= s@);
        assert(r.deep_view() =~= Seq::<Seq<char>>::empty());
        assert(r.deep_view() + spec_lines(s@) =~= spec_lines(s@));
    }
    while pos < n
        invariant
            n == s@.len(),
            pos <= n,
            spec_lines(s@) == r.deep_view() + spec_lines(s@.subrange(pos as int, n as int)),
        decreases n - pos,
    {
        let ghost tail = s@.subrange(pos as int, n as int);
        // scan for the next line break
        let mut j: usize = pos;
        while j < n && s.get_char(j) != '\n'
            invariant
                n == s@.len(),
                pos <= j <= n,
                forall|k: int| pos <= k < j ==> #[trigger] s@[k] != '\n',
            decreases n - j,
        {
            j += 1;
        }
        if j < n {
            // a line break at j: keep the piece before it, minus a '\r'
            let line_end = if j > pos && s.get_char(j - 1) == '\r' {
                j - 1
            } else {
                j
            };
            let piece = s.substring_char(pos, line_end);
            let owned = piece.to_owned();
            proof {
                assert(forall|k: int| 0 <= k < j - pos ==> tail[k] == #[trigger] s@[pos + k]);
                lemma_line_break_at(tail, j - pos);
                assert(spec_strip_cr(tail.subrange(0, j - pos)) =~= owned@) by {
                    assert(tail.subrange(0, j - pos) =~= s@.subrange(pos as int, j as int));
                    if j > pos && s@[j - 1] == '\r' {
                        assert(s@.subrange(pos as int, j as int).drop_last() =~= s@.subrange(
                            pos as int,
                            line_end as int,
                        ));
                    }
                }
                assert(tail.subrange(j - pos + 1, tail.len() as int) =~= s@.subrange(
                    j + 1 as int,
                    n as int,
                ));
                assert(spec_lines(tail) == seq![owned@] + spec_lines(
                    s@.subrange(j + 1 as int, n as int),
                ));
            }
            let ghost old_dv = r.deep_view();
            r.push(owned);
            proof {
                assert(r.deep_view() =~= old_dv + seq![owned@]);
                assert(old_dv + (seq![owned@] + spec_lines(s@.subrange(j + 1 as int, n as int)))
                    =~= r.deep_view() + spec_lines(s@.subrange(j + 1 as int, n as int)));
            }
            pos = j + 1;
        } else {
            // no further break: the rest is the final line
            let piece = s.substring_char(pos, n);
            let owned = piece.to_owned();
            proof {
                assert(forall|k: int| 0 <= k < tail.len() ==> tail[k] == #[trigger] s@[pos + k]);
                lemma_line_break_none(tail);
                assert(tail.len() > 0);
                assert(spec_lines(tail) == seq![tail]);
                assert(owned@ =~= tail);
            }
            let ghost old_dv = r.deep_view();
            r.push(owned);
            proof {
                assert(r.deep_view() =~= old_dv + seq![owned@]);
                assert(spec_lines(s@.subrange(n as int, n as int))
                    =~= Seq::<Seq<char>>::empty());
                assert(old_dv + seq![tail] =~= r.deep_view() + spec_lines(
                    s@.subrange(n as int, n as int),
                ));
            }
            pos = n;
        }
    }
    proof {
        assert(spec_lines(s@.subrange(pos as int, n as int)) =~= Seq::<Seq<char>>::empty());
        assert(r.deep_view() =~= spec_lines(s@));
    }
    r
}

/// What parsing one protocol value from `lines` at index `i` yields: the
/// value and the index of the first unconsumed line. A `*` line opens an
/// array of as many values as its length field says; a `$` line takes the
/// next line as the payload of a bulk string; anything else, a malformed
/// length field, or running out of lines is a parse error.
pub open spec fn spec_parse_at(lines: Seq<Seq<char>>, i: int) -> Result<(RespVal, int), ErrorVal>
    decreases lines.len() - i, 0int,
{
    if i < 0 || i >= lines.len() {
        Err(ErrorVal::Unknown)
    } else {
        let line = lines[i];
        if line.len() == 0 {
            Err(ErrorVal::Unknown)
        } else if line[0] == '*' {
            match spec_parse_usize(line.subrange(1, line.len() as int)) {
                None => Err(ErrorVal::Unknown),
                Some(n) => match spec_parse_n(lines, i + 1, n) {
                    Ok((vs, j)) => Ok((RespVal::Array { len: n, values: vs }, j)),
                    Err(e) => Err(e),
                },
            }
        } else if line[0] == '$' {
            match spec_parse_usize(line.subrange(1, line.len() as int)) {
                None => Err(ErrorVal::Unknown),
                Some(n) => if i + 1 < lines.len() {
                    Ok((RespVal::BulkString { len: n, value: lines[i + 1] }, i + 2))
                } else {
                    Err(ErrorVal::Unknown)
                },
            }
        } else {
            Err(ErrorVal::Unknown)
        }
    }
}

/// What parsing `n` consecutive protocol values from `lines` at index `i`
/// yields. The bound guards keep the recursion well founded; parsing a
/// value always advances, so they exclude nothing that can happen.
pub open spec fn spec_parse_n(lines: Seq<Seq<char>>, i: int, n: int) -> Result<
    (Seq<RespVal>, int),
    ErrorVal,
>
    decreases lines.len() - i, n,
{
    if i < 0 || i > lines.len() {
        Err(ErrorVal::Unknown)
    } else if n <= 0 {
        Ok((Seq::empty(), i))
    } else {
        match spec_parse_at(lines, i) {
            Err(e) => Err(e),
            Ok((v, j)) => if i < j <= lines.len() {
                match spec_parse_n(lines, j, n - 1) {
                    Ok((vs, k)) => Ok((seq![v] + vs, k)),
                    Err(e) => Err(e),
                }
            } else {
                Err(ErrorVal::Unknown)
            },
        }
    }
}

/// Parsing one value consumes at least one line and never reads past the
/// end.
proof fn lemma_parse_at_advances(lines: Seq<Seq<char>>, i: int)
    ensures
        spec_parse_at(lines, i) matches Ok(p) ==> i < p.1 <= lines.len(),
    decreases lines.len() - i, 0int,
{
    if 0 <= i < lines.len() {
        let line = lines[i];
        if line.len() > 0 && line[0] == '*' {
            match spec_parse_usize(line.subrange(1, line.len() as int)) {
                Some(n) => lemma_parse_n_advances(lines, i + 1, n),
                None => {},
            }
        }
    }
}

/// Parsing a run of values never moves backwards and never reads past the
/// end.
proof fn lemma_parse_n_advances(lines: Seq<Seq<char>>, i: int, n: int)
    ensures
        spec_parse_n(lines, i, n) matches Ok(p) ==> i <= p.1 <= lines.len() && p.0.len() == n
            || n < 0,
    decreases lines.len() - i, n,
{
    if 0 <= i <= lines.len() && n > 0 {
        lemma_parse_at_advances(lines, i);
        match spec_parse_at(lines, i) {
            Ok((v, j)) => {
                if i < j <= lines.len() {
                    lemma_parse_n_advances(lines, j, n - 1);
                }
            },
            Err(_) => {},
        }
    }
}

impl RespType {
    /// Parses one protocol value from `lines` starting at line `start`,
    /// exactly as `spec_parse_at` states it, returning the value and the
    /// index of the first unconsumed line.
    pub fn resp_type_parse(lines: &Vec<String>, start: usize) -> (r: Result<
        (RespType, usize),
        Error,
    >)
        ensures
            match r {
                Ok(p) => spec_parse_at(lines.deep_view(), start as int) == Ok::<
                    (RespVal, int),
                    ErrorVal,
                >((p.0.deep_view(), p.1 as int)),
                Err(e) => spec_parse_at(lines.deep_view(), start as int) == Err::<
                    (RespVal, int),
                    ErrorVal,
                >(e.deep_view()),
            },
        decreases lines@.len() - start,
    {
        let ghost dv = lines.deep_view();
        if start >= lines.len() {
            return Err(Error::Unknown);
        }
        let line: &str = lines[start].as_str();
        proof {
            assert(dv[start as int] == line@);
        }
        let n_chars = line.unicode_len();
        if n_chars == 0 {
            return Err(Error::Unknown);
        }
        let first = line.get_char(0);
        if first == '*' {
            let count = match parse_usize_from(line, n_chars, 1) {
                Some(c) => c,
                None => {
                    return Err(Error::Unknown);
                },
            };
            let mut values: Vec<RespType> = Vec::new();
            let mut pos: usize = start + 1;
            let mut k: usize = 0;
            proof {
                assert(values.deep_view() =~= Seq::<RespVal>::empty());
            }
            while k < count
                invariant
                    dv == lines.deep_view(),
                    lines@.len() == dv.len(),
                    k <= count,
                    values@.len() == k,
                    start < pos <= lines@.len(),
                    spec_parse_at(dv, start as int) == (match spec_parse_n(
                        dv,
                        start + 1,
                        count as int,
                    ) {
                        Ok((vs, j)) => Ok::<(RespVal, int), ErrorVal>((
                            RespVal::Array { len: count as int, values: vs },
                            j,
                        )),
                        Err(e) => Err::<(RespVal, int), ErrorVal>(e),
                    }),
                    spec_parse_n(dv, start + 1, count as int) == (match spec_parse_n(
                        dv,
                        pos as int,
                        count - k,
                    ) {
                        Ok((vs, j)) => Ok::<(Seq<RespVal>, int), ErrorVal>((
                            values.deep_view() + vs,
                            j,
                        )),
                        Err(e) => Err::<(Seq<RespVal>, int), ErrorVal>(e),
                    }),
                decreases count - k,
            {
                match Self::resp_type_parse(lines, pos) {
                    Err(e) => {
                        return Err(e);
                    },
                    Ok((v, next)) => {
                        proof {
                            lemma_parse_at_advances(dv, pos as int);
                        }
                        let ghost old_vals = values.deep_view();
                        values.push(v);
                        proof {
                            assert(values.deep_view() =~= old_vals + seq![v.deep_view()]);
                            assert(spec_parse_n(dv, pos as int, count - k) == (
                            match spec_parse_n(dv, next as int, count - k - 1) {
                                Ok((vs, j)) => Ok::<(Seq<RespVal>, int), ErrorVal>((
                                    seq![v.deep_view()] + vs,
                                    j,
                                )),
                                Err(e) => Err::<(Seq<RespVal>, int), ErrorVal>(e),
                            }));
                            assert(forall|vs: Seq<RespVal>|
                                old_vals + (seq![v.deep_view()] + vs) =~= (old_vals + seq![
                                    v.deep_view(),
                                ]) + vs);
                        }
                        pos = next;
                        k += 1;
                    },
                }
            }
            proof {
                assert(spec_parse_n(dv, pos as int, 0) == Ok::<(Seq<RespVal>, int), ErrorVal>((
                    Seq::empty(),
                    pos as int,
                )));
                assert(values.deep_view() + Seq::<RespVal>::empty() =~= values.deep_view());
            }
            let result = RespType::Array { len: count, values };
            proof {
                assert(result.deep_view()->Array_values =~= result->Array_values.deep_view());
            }
            Ok((result, pos))
        } else if first == '$' {
            let count = match parse_usize_from(line, n_chars, 1) {
                Some(c) => c,
                None => {
                    return Err(Error::Unknown);
                },
            };
            if start + 1 < lines.len() {
                let value = lines[start + 1].clone();
                proof {
                    assert(dv[start + 1 as int] == value@);
                }
                Ok((RespType::BulkString { len: count, value }, start + 2))
            } else {
                Err(Error::Unknown)
            }
        } else {
            Err(Error::Unknown)
        }
    }

    /// Parses the first protocol value found in `value`, line by line.
    /// Input past the first complete value is ignored.
    pub fn try_from(value: &str) -> (r: Result<RespType, Error>)
        ensures
            match r {
                Ok(v) => spec_parse_at(spec_lines(value@), 0) matches Ok(p) && p.0
                    == v.deep_view(),
                Err(e) => spec_parse_at(spec_lines(value@), 0) == Err::<
                    (RespVal, int),
                    ErrorVal,
                >(e.deep_view()),
            },
    {
        let lines = split_lines(value);
        match Self::resp_type_parse(&lines, 0) {
            Ok(p) => Ok(p.0),
            Err(e) => Err(e),
        }
    }
}

/// No character of `s` is a line break.
pub open spec fn spec_no_newline(s: Seq<char>) -> bool {
    forall|i: int| 0 <= i < s.len() ==> #[trigger] s[i] != '\n'
}

/// The values the codec round-trips: bulk strings whose length field
/// matches a non-empty payload free of line breaks, and arrays of such
/// values whose length field matches their count. Line-oriented framing
/// cannot carry a payload holding a line break, and the null encoding
/// collapses with the empty bulk string, so those stay outside.
pub open spec fn spec_parseable(v: RespVal) -> bool
    decreases v,
{
    match v {
        RespVal::BulkString { len, value } => 0 < len == value.len() && len <= usize::MAX as int
            && spec_no_newline(value),
        RespVal::Array { len, values } => len == values.len() && len <= usize::MAX as int
            && forall|i: int| 0 <= i < values.len() ==> spec_parseable(#[trigger] values[i]),
        _ => false,
    }
}

/// The encoding of a value, line by line: what the line reader hands the
/// parser back.
pub open spec fn spec_encode_lines(v: RespVal) -> Seq<Seq<char>>
    decreases v, 0int,
{
    match v {
        RespVal::BulkString { len, value } => seq!["$"@ + spec_dec_digits(len as nat), value],
        RespVal::Array { len, values } => seq!["*"@ + spec_dec_digits(len as nat)]
            + spec_encode_lines_seq(values),
        _ => Seq::empty(),
    }
}

/// The encodings of a run of values, line by line, in order.
pub open spec fn spec_encode_lines_seq(vs: Seq<RespVal>) -> Seq<Seq<char>>
    decreases vs, vs.len(),
{
    if vs.len() == 0 {
        Seq::empty()
    } else {
        spec_encode_lines(vs[0]) + spec_encode_lines_seq(vs.subrange(1, vs.len() as int))
    }
}

/// Every character of a decimal numeral is a digit.
proof fn lemma_dec_digits_are_digits(n: nat)
    ensures
        spec_dec_digits(n).len() >= 1,
        spec_all_digits(spec_dec_digits(n)),
    decreases n,
{
    if n >= 10 {
        lemma_dec_digits_are_digits(n / 10);
    }
}

/// Reading a numeral back yields the number.
proof fn lemma_digits_val_of_dec(n: nat)
    ensures
        spec_digits_val(spec_dec_digits(n)) == n,
    decreases n,
{
    if n < 10 {
        assert(spec_digit_char(n) as int - '0' as int == n);
        assert(spec_dec_digits(n).drop_last() =~= Seq::<char>::empty());
        assert(spec_digits_val(Seq::<char>::empty()) == 0);
        assert(spec_dec_digits(n).last() == spec_digit_char(n));
    } else {
        lemma_digits_val_of_dec(n / 10);
        let d = spec_dec_digits(n);
        assert(d.drop_last() =~= spec_dec_digits(n / 10));
        assert(d.last() == spec_digit_char(n % 10));
        assert(spec_digit_char(n % 10) as int - '0' as int == n % 10);
        assert(n / 10 * 10 + n % 10 == n) by {
            vstd::arithmetic::div_mod::lemma_fundamental_div_mod(n as int, 10);
        }
    }
}

/// A whole numeral reads back as its number.
proof fn lemma_parse_usize_of_dec(n: nat)
    requires
        n <= usize::MAX as nat,
    ensures
        spec_parse_usize(spec_dec_digits(n)) == Some(n as int),
{
    lemma_dec_digits_are_digits(n);
    lemma_digits_val_of_dec(n);
    assert(spec_is_digit(spec_dec_digits(n)[0]));
    assert(spec_dec_digits(n)[0] != '+') by {
        assert('+' as int == 43 && '0' as int == 48);
    }
    assert(spec_numeral_digits(spec_dec_digits(n)) =~= spec_dec_digits(n));
}

/// Splitting off one full line: a line free of line breaks, closed by
/// the two-character line ending, stands first, and the rest splits on
/// its own.
proof fn lemma_lines_prefix(l: Seq<char>, rest: Seq<char>)
    requires
        spec_no_newline(l),
    ensures
        spec_lines(l + "\r\n"@ + rest) == seq![l] + spec_lines(rest),
{
    reveal_strlit("\r\n");
    let s = l + "\r\n"@ + rest;
    assert(s.len() == l.len() + 2 + rest.len());
    assert(forall|i: int| 0 <= i < l.len() ==> s[i] == #[trigger] l[i]);
    assert(s[l.len() as int] == '\r');
    assert(s[l.len() as int + 1] == '\n');
    lemma_line_break_at(s, l.len() as int + 1);
    let head = s.subrange(0, l.len() as int + 1);
    assert(head.last() == '\r');
    assert(spec_strip_cr(head) =~= l);
    assert(s.subrange(l.len() as int + 2, s.len() as int) =~= rest);
    assert(seq![spec_strip_cr(head)] + spec_lines(rest) =~= seq![l] + spec_lines(rest));
}

/// An encoded value splits into exactly its encoding's lines, leaving
/// whatever follows to split on its own.
proof fn lemma_lines_of_encode(v: RespVal, rest: Seq<char>)
    requires
        spec_parseable(v),
    ensures
        spec_lines(v.spec_encode() + rest) == spec_encode_lines(v) + spec_lines(rest),
    decreases v, 0int,
{
    reveal_strlit("$");
    reveal_strlit("*");
    match v {
        RespVal::BulkString { len, value } => {
            lemma_dec_digits_are_digits(len as nat);
            let line1 = "$"@ + spec_dec_digits(len as nat);
            assert(spec_no_newline(line1));
            assert(v.spec_encode() + rest =~= line1 + "\r\n"@ + (value + "\r\n"@ + rest));
            lemma_lines_prefix(line1, value + "\r\n"@ + rest);
            lemma_lines_prefix(value, rest);
            assert(seq![line1] + (seq![value] + spec_lines(rest)) =~= spec_encode_lines(v)
                + spec_lines(rest));
        },
        RespVal::Array { len, values } => {
            lemma_dec_digits_are_digits(len as nat);
            let line1 = "*"@ + spec_dec_digits(len as nat);
            assert(spec_no_newline(line1));
            assert(v.spec_encode() + rest =~= line1 + "\r\n"@ + (spec_encode_seq(values) + rest));
            lemma_lines_prefix(line1, spec_encode_seq(values) + rest);
            lemma_lines_of_encode_seq(values, rest);
            assert(seq![line1] + (spec_encode_lines_seq(values) + spec_lines(rest))
                =~= spec_encode_lines(v) + spec_lines(rest));
        },
        _ => {},
    }
}

/// A run of encoded values splits into their encodings' lines in order.
proof fn lemma_lines_of_encode_seq(vs: Seq<RespVal>, rest: Seq<char>)
    requires
        forall|i: int| 0 <= i < vs.len() ==> spec_parseable(#[trigger] vs[i]),
    ensures
        spec_lines(spec_encode_seq(vs) + rest) == spec_encode_lines_seq(vs) + spec_lines(rest),
    decreases vs, vs.len(),
{
    if vs.len() == 0 {
        assert(spec_encode_seq(vs) + rest =~= rest);
        assert(spec_encode_lines_seq(vs) + spec_lines(rest) =~= spec_lines(rest));
    } else {
        let tail = vs.subrange(1, vs.len() as int);
        assert(forall|i: int| 0 <= i < tail.len() ==> tail[i] == #[trigger] vs[i + 1]);
        assert(spec_encode_seq(vs) + rest =~= vs[0].spec_encode() + (spec_encode_seq(tail)
            + rest));
        lemma_lines_of_encode(vs[0], spec_encode_seq(tail) + rest);
        lemma_lines_of_encode_seq(tail, rest);
        assert(spec_encode_lines(vs[0]) + (spec_encode_lines_seq(tail) + spec_lines(rest))
            =~= spec_encode_lines_seq(vs) + spec_lines(rest));
    }
}

/// An encoding is at least one line long.
proof fn lemma_encode_lines_len(v: RespVal)
    requires
        spec_parseable(v),
    ensures
        spec_encode_lines(v).len() >= 1,
{
}

/// Parsing from the lines of one encoded value yields that value back
/// and stops right after it, wherever those lines stand.
proof fn lemma_parse_of_encode_lines(lines: Seq<Seq<char>>, i: int, v: RespVal)
    requires
        spec_parseable(v),
        0 <= i,
        i + spec_encode_lines(v).len() <= lines.len(),
        lines.subrange(i, i + spec_encode_lines(v).len()) == spec_encode_lines(v),
    ensures
        spec_parse_at(lines, i) == Ok::<(RespVal, int), ErrorVal>((
            v,
            i + spec_encode_lines(v).len(),
        )),
    decreases v, 0int,
{
    reveal_strlit("$");
    reveal_strlit("*");
    let el = spec_encode_lines(v);
    assert(forall|k: int| 0 <= k < el.len() ==> lines[i + k] == #[trigger] el[k]);
    match v {
        RespVal::BulkString { len, value } => {
            let line = lines[i];
            assert(line == "$"@ + spec_dec_digits(len as nat));
            lemma_dec_digits_are_digits(len as nat);
            assert(line.len() > 0);
            assert(line[0] == '$');
            assert(line[0] != '*') by {
                assert('$' as int == 36 && '*' as int == 42);
            }
            assert(line.subrange(1, line.len() as int) =~= spec_dec_digits(len as nat));
            lemma_parse_usize_of_dec(len as nat);
            assert(lines[i + 1] == value);
        },
        RespVal::Array { len, values } => {
            let line = lines[i];
            assert(line == el[0]);
            assert(el[0] =~= "*"@ + spec_dec_digits(len as nat));
            lemma_dec_digits_are_digits(len as nat);
            assert(line.len() > 0);
            assert(line[0] == '*');
            assert(line.subrange(1, line.len() as int) =~= spec_dec_digits(len as nat));
            lemma_parse_usize_of_dec(len as nat);
            assert(lines.subrange(i + 1, i + 1 + spec_encode_lines_seq(values).len())
                =~= spec_encode_lines_seq(values)) by {
                assert(forall|k: int| 0 <= k < spec_encode_lines_seq(values).len()
                    ==> #[trigger] spec_encode_lines_seq(values)[k] == el[1 + k]);
            }
            lemma_parse_of_encode_lines_seq(lines, i + 1, values);
        },
        _ => {},
    }
}

/// Parsing a run of encoded values from their lines yields them all back
/// in order.
proof fn lemma_parse_of_encode_lines_seq(lines: Seq<Seq<char>>, j: int, vs: Seq<RespVal>)
    requires
        forall|i: int| 0 <= i < vs.len() ==> spec_parseable(#[trigger] vs[i]),
        0 <= j,
        j + spec_encode_lines_seq(vs).len() <= lines.len(),
        lines.subrange(j, j + spec_encode_lines_seq(vs).len()) == spec_encode_lines_seq(vs),
    ensures
        spec_parse_n(lines, j, vs.len() as int) == Ok::<(Seq<RespVal>, int), ErrorVal>((
            vs,
            j + spec_encode_lines_seq(vs).len(),
        )),
    decreases vs, vs.len(),
{
    let els = spec_encode_lines_seq(vs);
    assert(forall|k: int| 0 <= k < els.len() ==> lines[j + k] == #[trigger] els[k]);
    if vs.len() == 0 {
        assert(vs =~= Seq::<RespVal>::empty());
    } else {
        let head = vs[0];
        let tail = vs.subrange(1, vs.len() as int);
        assert(forall|i: int| 0 <= i < tail.len() ==> tail[i] == #[trigger] vs[i + 1]);
        let el0 = spec_encode_lines(head);
        let elt = spec_encode_lines_seq(tail);
        assert(els == el0 + elt);
        assert(lines.subrange(j, j + el0.len()) =~= el0) by {
            assert(forall|k: int| 0 <= k < el0.len() ==> #[trigger] el0[k] == els[k]);
        }
        lemma_parse_of_encode_lines(lines, j, head);
        lemma_encode_lines_len(head);
        let j2 = j + el0.len();
        assert(lines.subrange(j2, j2 + elt.len()) =~= elt) by {
            assert(forall|k: int| 0 <= k < elt.len() ==> #[trigger] elt[k] == els[el0.len() + k]);
        }
        lemma_parse_of_encode_lines_seq(lines, j2, tail);
        assert(seq![head] + tail =~= vs);
    }
}

/// Round trip: a value the codec can frame comes back from its own
/// encoding, whole and unchanged, with every line consumed.
pub proof fn lemma_codec_round_trip(v: RespVal)
    requires
        spec_parseable(v),
    ensures
        spec_parse_at(spec_lines(v.spec_encode()), 0) == Ok::<(RespVal, int), ErrorVal>((
            v,
            spec_encode_lines(v).len() as int,
        )),
{
    lemma_lines_of_encode(v, Seq::empty());
    assert(v.spec_encode() + Seq::<char>::empty() =~= v.spec_encode());
    assert(spec_lines(Seq::empty()) =~= Seq::<Seq<char>>::empty());
    assert(spec_lines(v.spec_encode()) == spec_encode_lines(v) + Seq::<Seq<char>>::empty());
    let lines = spec_lines(v.spec_encode());
    assert(lines =~= spec_encode_lines(v));
    assert(lines.subrange(0, spec_encode_lines(v).len() as int) =~= spec_encode_lines(v));
    lemma_parse_of_encode_lines(lines, 0, v);
}

} // verus!

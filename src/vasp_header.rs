use vstd::prelude::*;

verus! {

/// Line (counted from zero) of a VASP volumetric file that holds the grid shape.
pub const SHAPE_LINE: usize = 28;

/// White space as `char::is_whitespace` defines it (the Unicode `White_Space` property).
pub open spec fn is_ws(c: char) -> bool {
    ('\u{9}' <= c && c <= '\u{d}') || c == ' ' || c == '\u{85}' || c == '\u{a0}' || c == '\u{1680}'
        || ('\u{2000}' <= c && c <= '\u{200a}') || c == '\u{2028}' || c == '\u{2029}' || c
        == '\u{202f}' || c == '\u{205f}' || c == '\u{3000}'
}

fn is_whitespace(c: char) -> (r: bool)
    ensures
        r == is_ws(c),
{
    ('\u{9}' <= c && c <= '\u{d}') || c == ' ' || c == '\u{85}' || c == '\u{a0}' || c == '\u{1680}'
        || ('\u{2000}' <= c && c <= '\u{200a}') || c == '\u{2028}' || c == '\u{2029}' || c
        == '\u{202f}' || c == '\u{205f}' || c == '\u{3000}'
}

/// Left-to-right scan of `s` into white-space separated fields: the fields
/// completed so far, and the field being read.
pub open spec fn scan_fields(s: Seq<char>) -> (Seq<Seq<char>>, Seq<char>)
    decreases s.len(),
{
    if s.len() == 0 {
        (Seq::empty(), Seq::empty())
    } else {
        let (done, cur) = scan_fields(s.drop_last());
        let c = s.last();
        if is_ws(c) {
            if cur.len() > 0 {
                (done.push(cur), Seq::empty())
            } else {
                (done, Seq::empty())
            }
        } else {
            (done, cur.push(c))
        }
    }
}

/// The white-space separated fields of `s`, as `str::split_whitespace` gives them.
pub open spec fn fields(s: Seq<char>) -> Seq<Seq<char>> {
    let (done, cur) = scan_fields(s);
    if cur.len() > 0 {
        done.push(cur)
    } else {
        done
    }
}

pub open spec fn is_digit(c: char) -> bool {
    '0' <= c && c <= '9'
}

/// Value of a run of decimal digits.
pub open spec fn digits_value(t: Seq<char>) -> nat
    decreases t.len(),
{
    if t.len() == 0 {
        0
    } else {
        digits_value(t.drop_last()) * 10 + (t.last() as nat - '0' as nat) as nat
    }
}

/// `t` without a leading `+`.
pub open spec fn unsigned_part(t: Seq<char>) -> Seq<char> {
    if t.len() > 0 && t[0] == '+' {
        t.drop_first()
    } else {
        t
    }
}

pub open spec fn all_digits(d: Seq<char>) -> bool {
    forall|i: int| 0 <= i < d.len() ==> is_digit(#[trigger] d[i])
}

/// The `usize` that `t` denotes, as `usize::from_str` reads it: an optional
/// `+`, then one or more decimal digits, with a value that fits in a `usize`.
pub open spec fn usize_value(t: Seq<char>) -> Option<usize> {
    let d = unsigned_part(t);
    if d.len() > 0 && all_digits(d) && digits_value(d) <= usize::MAX {
        Some(digits_value(d) as usize)
    } else {
        None
    }
}

/// The grid shape a shape line gives: exactly three fields, each a `usize`.
pub open spec fn shape_of_line(s: Seq<char>) -> Option<[usize; 3]> {
    let f = fields(s);
    if f.len() == 3 && usize_value(f[0]) is Some && usize_value(f[1]) is Some && usize_value(
        f[2],
    ) is Some {
        Some([usize_value(f[0])->0, usize_value(f[1])->0, usize_value(f[2])->0])
    } else {
        None
    }
}

/// Reads one field as a `usize`.
fn parse_usize(t: &Vec<char>) -> (r: Option<usize>)
    ensures
        r == usize_value(t@),
{
    let n = t.len();
    let mut i: usize = 0;
    if n > 0 && t[0] == '+' {
        i = 1;
    }
    let ghost d = unsigned_part(t@);
    assert(d =~= t@.subrange(i as int, n as int));
    if i == n {
        return None;
    }
    let mut value: usize = 0;
    let mut overflow = false;
    let start = i;
    while i < n
        invariant
            start <= i <= n,
            n == t@.len(),
            start < n,
            d == t@.subrange(start as int, n as int),
            d == unsigned_part(t@),
            forall|j: int| start <= j < i ==> is_digit(#[trigger] t@[j]),
            !overflow ==> value == digits_value(t@.subrange(start as int, i as int)),
            overflow ==> digits_value(t@.subrange(start as int, i as int)) > usize::MAX,
        decreases n - i,
    {
        let c = t[i];
        if !('0' <= c && c <= '9') {
            assert(!is_digit(d[i - start]));
            return None;
        }
        let ghost pre = t@.subrange(start as int, i as int);
        let ghost next = t@.subrange(start as int, i + 1);
        assert(next.drop_last() =~= pre);
        let digit = (c as u32 - '0' as u32) as usize;
        assert(digits_value(next) == digits_value(pre) * 10 + digit);
        if overflow {
            assert(digits_value(pre) * 10 >= digits_value(pre)) by (nonlinear_arith);
        } else if value > (usize::MAX - digit) / 10 {
            overflow = true;
            assert(value * 10 + digit > usize::MAX) by (nonlinear_arith)
                requires
                    value > (usize::MAX - digit) / 10,
                    digit <= 9,
            ;
        } else {
            assert(value * 10 + digit <= usize::MAX) by (nonlinear_arith)
                requires
                    value <= (usize::MAX - digit) / 10,
                    digit <= 9,
            ;
            value = value * 10 + digit;
        }
        i = i + 1;
    }
    assert(d =~= t@.subrange(start as int, n as int));
    if overflow {
        None
    } else {
        Some(value)
    }
}

/// Splits `line` into its white-space separated fields.
pub fn split_fields(line: &str) -> (r: Vec<Vec<char>>)
    ensures
        r@.map_values(|f: Vec<char>| f@) == fields(line@),
{
    let n = line.unicode_len();
    let mut done: Vec<Vec<char>> = Vec::new();
    let mut cur: Vec<char> = Vec::new();
    let mut i: usize = 0;
    while i < n
        invariant
            n == line@.len(),
            i <= n,
            scan_fields(line@.subrange(0, i as int)) == (
                done@.map_values(|f: Vec<char>| f@),
                cur@,
            ),
        decreases n - i,
    {
        let c = line.get_char(i);
        let ghost pre = line@.subrange(0, i as int);
        assert(line@.subrange(0, i + 1).drop_last() =~= pre);
        assert(line@.subrange(0, i + 1).last() == c);
        let ghost done0 = done@.map_values(|f: Vec<char>| f@);
        if is_whitespace(c) {
            if cur.len() > 0 {
                let mut field: Vec<char> = Vec::new();
                std::mem::swap(&mut field, &mut cur);
                let ghost f = field@;
                done.push(field);
                assert(done@.map_values(|f: Vec<char>| f@) =~= done0.push(f));
                assert(cur@ =~= Seq::<char>::empty());
            }
        } else {
            cur.push(c);
        }
        i = i + 1;
    }
    assert(line@.subrange(0, n as int) =~= line@);
    if cur.len() > 0 {
        let ghost done0 = done@.map_values(|f: Vec<char>| f@);
        let ghost f = cur@;
        done.push(cur);
        assert(done@.map_values(|f: Vec<char>| f@) =~= done0.push(f));
    }
    done
}

/// The grid shape given by the shape line of a VASP volumetric file: exactly
/// three white-space separated non-negative integers.
pub fn parse_shape_line(line: &str) -> (r: Option<[usize; 3]>)
    ensures
        r == shape_of_line(line@),
{
    let f = split_fields(line);
    let ghost fv = f@.map_values(|x: Vec<char>| x@);
    if f.len() != 3 {
        return None;
    }
    assert(f@[0]@ == fv[0] && f@[1]@ == fv[1] && f@[2]@ == fv[2]);
    let a = parse_usize(&f[0]);
    let b = parse_usize(&f[1]);
    let c = parse_usize(&f[2]);
    match (a, b, c) {
        (Some(x), Some(y), Some(z)) => Some([x, y, z]),
        _ => None,
    }
}

/// Why the grid shape could not be read from a VASP header.
#[derive(Clone, Copy, Debug, PartialEq, Eq, Structural)]
pub enum HeaderError {
    /// The file has no shape line.
    TooFewLines,
    /// The shape line is not three non-negative integers.
    BadShapeLine,
}

/// The grid shape given by the header lines of a VASP volumetric file.
pub fn shape_from_header(lines: &Vec<String>) -> (r: Result<[usize; 3], HeaderError>)
    ensures
        lines@.len() <= SHAPE_LINE ==> r == Err::<[usize; 3], HeaderError>(HeaderError::TooFewLines),
        lines@.len() > SHAPE_LINE ==> match shape_of_line(lines@[SHAPE_LINE as int]@) {
            Some(s) => r == Ok::<[usize; 3], HeaderError>(s),
            None => r == Err::<[usize; 3], HeaderError>(HeaderError::BadShapeLine),
        },
{
    if lines.len() <= SHAPE_LINE {
        return Err(HeaderError::TooFewLines);
    }
    match parse_shape_line(lines[SHAPE_LINE].as_str()) {
        Some(s) => Ok(s),
        None => Err(HeaderError::BadShapeLine),
    }
}

} // verus!

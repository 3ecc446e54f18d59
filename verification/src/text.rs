//! Character-level text helpers shared by the parsers of this crate.
use vstd::prelude::*;

verus! {

/// `String::push`: appends one character.
#[verifier::external_body]
pub(crate) fn push_char(s: &mut String, c: char)
    ensures
        final(s)@ == old(s)@.push(c),
{
    s.push(c);
}

/// The characters of a string slice, in order.
pub fn chars_of(s: &str) -> (r: Vec<char>)
    ensures
        r@ == s@,
{
    broadcast use vstd::string::axiom_spec_iter;

    let mut v: Vec<char> = Vec::new();
    for c in it: s.chars()
        invariant
            v@ == it.seq().take(it.index() as int),
            it.seq() == s@,
    {
        v.push(c);
    }
    v
}

/// A fresh string holding `s[start..end]` (character positions).
pub fn string_from_chars(s: &Vec<char>, start: usize, end: usize) -> (r: String)
    requires
        start <= end <= s@.len(),
    ensures
        r@ == s@.subrange(start as int, end as int),
{
    let mut r = String::new();
    let mut i = start;
    while i < end
        invariant
            start <= i <= end <= s@.len(),
            r@ == s@.subrange(start as int, i as int),
        decreases end - i,
    {
        push_char(&mut r, s[i]);
        proof {
            assert(s@.subrange(start as int, i + 1) =~= s@.subrange(start as int, i as int).push(
                s@[i as int],
            ));
        }
        i += 1;
    }
    r
}

/// A fresh string with the same characters as `s`.
pub fn owned(s: &str) -> (r: String)
    ensures
        r@ == s@,
{
    let chars = chars_of(s);
    string_from_chars(&chars, 0, chars.len())
}

/// A string equal to `a` followed by `b`.
pub fn str_concat(a: &str, b: &str) -> (r: String)
    ensures
        r@ == a@ + b@,
{
    let mut r = owned(a);
    let chars = chars_of(b);
    let mut i: usize = 0;
    while i < chars.len()
        invariant
            i <= chars@.len(),
            chars@ == b@,
            r@ == a@ + chars@.take(i as int),
        decreases chars@.len() - i,
    {
        push_char(&mut r, chars[i]);
        proof {
            assert(chars@.take(i + 1) =~= chars@.take(i as int).push(chars@[i as int]));
            assert(a@ + chars@.take(i + 1) =~= (a@ + chars@.take(i as int)).push(chars@[i as int]));
        }
        i += 1;
    }
    proof {
        assert(chars@.take(i as int) =~= b@);
    }
    r
}

/// Character equality of two strings.
pub fn str_eq(a: &str, b: &str) -> (r: bool)
    ensures
        r == (a@ == b@),
{
    let x = chars_of(a);
    let y = chars_of(b);
    if x.len() != y.len() {
        return false;
    }
    let mut i: usize = 0;
    while i < x.len()
        invariant
            i <= x@.len(),
            x@.len() == y@.len(),
            x@ == a@,
            y@ == b@,
            forall|j: int| 0 <= j < i ==> x@[j] == y@[j],
        decreases x@.len() - i,
    {
        if x[i] != y[i] {
            return false;
        }
        i += 1;
    }
    proof {
        assert(x@ =~= y@);
    }
    true
}

pub open spec fn is_prefix(p: Seq<char>, s: Seq<char>) -> bool {
    p.len() <= s.len() && s.subrange(0, p.len() as int) == p
}

pub open spec fn is_suffix(p: Seq<char>, s: Seq<char>) -> bool {
    p.len() <= s.len() && s.subrange(s.len() - p.len(), s.len() as int) == p
}

pub open spec fn occurs_at(p: Seq<char>, s: Seq<char>, i: int) -> bool {
    0 <= i && i + p.len() <= s.len() && s.subrange(i, i + p.len()) == p
}

pub open spec fn contains_seq(s: Seq<char>, p: Seq<char>) -> bool {
    exists|i: int| #[trigger] occurs_at(p, s, i)
}

/// Whether `p` occurs in `s` at character position `i`.
fn matches_at(s: &Vec<char>, p: &Vec<char>, i: usize) -> (r: bool)
    requires
        i + p@.len() <= s@.len(),
    ensures
        r == (s@.subrange(i as int, i + p@.len()) == p@),
{
    let n = s.len();
    let mut j: usize = 0;
    while j < p.len()
        invariant
            j <= p@.len(),
            n == s@.len(),
            i + p@.len() <= s@.len(),
            forall|k: int| 0 <= k < j ==> s@[i + k] == p@[k],
        decreases p@.len() - j,
    {
        if s[i + j] != p[j] {
            assert(s@.subrange(i as int, i + p@.len())[j as int] != p@[j as int]);
            return false;
        }
        j += 1;
    }
    assert(s@.subrange(i as int, i + p@.len()) =~= p@);
    true
}

/// `str::starts_with` for a string pattern.
pub fn starts_with(s: &str, p: &str) -> (r: bool)
    ensures
        r == is_prefix(p@, s@),
{
    let x = chars_of(s);
    let y = chars_of(p);
    if y.len() > x.len() {
        return false;
    }
    matches_at(&x, &y, 0)
}

/// `str::ends_with` for a string pattern.
pub fn ends_with(s: &str, p: &str) -> (r: bool)
    ensures
        r == is_suffix(p@, s@),
{
    let x = chars_of(s);
    let y = chars_of(p);
    if y.len() > x.len() {
        return false;
    }
    matches_at(&x, &y, x.len() - y.len())
}

/// `str::contains` for a string pattern.
pub fn contains(s: &str, p: &str) -> (r: bool)
    ensures
        r == contains_seq(s@, p@),
{
    let x = chars_of(s);
    let y = chars_of(p);
    if y.len() > x.len() {
        proof {
            assert forall|i: int| !occurs_at(p@, s@, i) by {}
        }
        return false;
    }
    if y.len() == 0 {
        assert(occurs_at(p@, s@, 0)) by {
            assert(s@.subrange(0, 0) =~= p@);
        }
        return true;
    }
    let n = x.len();
    let mut i: usize = 0;
    while i <= n - y.len()
        invariant
            n == x@.len(),
            1 <= y@.len() <= x@.len(),
            x@ == s@,
            y@ == p@,
            forall|k: int| 0 <= k < i ==> !#[trigger] occurs_at(p@, s@, k),
        decreases x@.len() - y@.len() + 1 - i,
    {
        if matches_at(&x, &y, i) {
            assert(occurs_at(p@, s@, i as int));
            return true;
        }
        i += 1;
    }
    proof {
        assert forall|k: int| !#[trigger] occurs_at(p@, s@, k) by {
            if 0 <= k < i {
            }
        }
    }
    false
}

/// The Unicode `White_Space` property, as `char::is_whitespace` documents it.
pub open spec fn is_white_space(c: char) -> bool {
    ||| ('\u{9}' <= c && c <= '\u{d}')
    ||| c == ' '
    ||| c == '\u{85}'
    ||| c == '\u{a0}'
    ||| c == '\u{1680}'
    ||| ('\u{2000}' <= c && c <= '\u{200a}')
    ||| c == '\u{2028}'
    ||| c == '\u{2029}'
    ||| c == '\u{202f}'
    ||| c == '\u{205f}'
    ||| c == '\u{3000}'
}

pub fn char_is_white_space(c: char) -> (r: bool)
    ensures
        r == is_white_space(c),
{
    ('\u{9}' <= c && c <= '\u{d}') || c == ' ' || c == '\u{85}' || c == '\u{a0}' || c == '\u{1680}'
        || ('\u{2000}' <= c && c <= '\u{200a}') || c == '\u{2028}' || c == '\u{2029}' || c
        == '\u{202f}' || c == '\u{205f}' || c == '\u{3000}'
}

pub open spec fn trim_start_spec(s: Seq<char>) -> Seq<char>
    decreases s.len(),
{
    if s.len() > 0 && is_white_space(s[0]) {
        trim_start_spec(s.drop_first())
    } else {
        s
    }
}

pub open spec fn trim_end_spec(s: Seq<char>) -> Seq<char>
    decreases s.len(),
{
    if s.len() > 0 && is_white_space(s.last()) {
        trim_end_spec(s.drop_last())
    } else {
        s
    }
}

/// `str::trim`: leading and trailing white space removed.
pub open spec fn trim_spec(s: Seq<char>) -> Seq<char> {
    trim_end_spec(trim_start_spec(s))
}

proof fn lemma_trim_start_skip(s: Seq<char>, i: int)
    requires
        0 <= i <= s.len(),
        forall|k: int| 0 <= k < i ==> is_white_space(s[k]),
    ensures
        trim_start_spec(s) == trim_start_spec(s.skip(i)),
    decreases i,
{
    if i > 0 {
        assert(s.drop_first().skip(i - 1) =~= s.skip(i));
        lemma_trim_start_skip(s.drop_first(), i - 1);
    } else {
        assert(s.skip(0) =~= s);
    }
}

proof fn lemma_trim_end_take(s: Seq<char>, i: int)
    requires
        0 <= i <= s.len(),
        forall|k: int| i <= k < s.len() ==> is_white_space(s[k]),
    ensures
        trim_end_spec(s) == trim_end_spec(s.take(i)),
    decreases s.len() - i,
{
    if i < s.len() {
        assert(s.drop_last().take(i) =~= s.take(i));
        lemma_trim_end_take(s.drop_last(), i);
    } else {
        assert(s.take(i) =~= s);
    }
}

/// `str::trim`, returning an owned string.
pub fn trim(s: &str) -> (r: String)
    ensures
        r@ == trim_spec(s@),
{
    let x = chars_of(s);
    let mut start: usize = 0;
    while start < x.len() && char_is_white_space(x[start])
        invariant
            start <= x@.len(),
            forall|k: int| 0 <= k < start ==> is_white_space(x@[k]),
        decreases x@.len() - start,
    {
        start += 1;
    }
    proof {
        lemma_trim_start_skip(x@, start as int);
    }
    let ghost rest = x@.skip(start as int);
    let mut end: usize = x.len();
    while end > start && char_is_white_space(x[end - 1])
        invariant
            start <= end <= x@.len(),
            rest == x@.skip(start as int),
            forall|k: int| end <= k < x@.len() ==> is_white_space(x@[k]),
        decreases end,
    {
        end -= 1;
    }
    proof {
        assert(trim_start_spec(rest) == rest);
        lemma_trim_end_take(rest, end - start);
        assert(rest.take(end - start) =~= x@.subrange(start as int, end as int));
        assert(trim_end_spec(x@.subrange(start as int, end as int)) == x@.subrange(
            start as int,
            end as int,
        ));
    }
    string_from_chars(&x, start, end)
}

/// The pieces of `str::split` on one separator character, built left to right.
/// The first component holds the finished pieces, the second the open one.
pub open spec fn split_state(s: Seq<char>, sep: char) -> (Seq<Seq<char>>, Seq<char>)
    decreases s.len(),
{
    if s.len() == 0 {
        (seq![], seq![])
    } else {
        let (done, cur) = split_state(s.drop_last(), sep);
        if s.last() == sep {
            (done.push(cur), seq![])
        } else {
            (done, cur.push(s.last()))
        }
    }
}

/// `str::split` on a character: always at least one piece.
pub open spec fn split_spec(s: Seq<char>, sep: char) -> Seq<Seq<char>> {
    split_state(s, sep).0.push(split_state(s, sep).1)
}

pub open spec fn views_of(v: Seq<String>) -> Seq<Seq<char>> {
    v.map_values(|x: String| x@)
}

/// `str::split` on a character, collected.
pub fn split_char(s: &str, sep: char) -> (r: Vec<String>)
    ensures
        views_of(r@) == split_spec(s@, sep),
        r@.len() >= 1,
{
    let x = chars_of(s);
    let mut done: Vec<String> = Vec::new();
    let mut cur_start: usize = 0;
    let mut i: usize = 0;
    while i < x.len()
        invariant
            cur_start <= i <= x@.len(),
            x@ == s@,
            views_of(done@) == split_state(x@.take(i as int), sep).0,
            x@.subrange(cur_start as int, i as int) == split_state(x@.take(i as int), sep).1,
        decreases x@.len() - i,
    {
        proof {
            assert(x@.take(i + 1).drop_last() =~= x@.take(i as int));
        }
        if x[i] == sep {
            let piece = string_from_chars(&x, cur_start, i);
            let ghost before = done@;
            done.push(piece);
            cur_start = i + 1;
            proof {
                assert(views_of(done@) =~= views_of(before).push(piece@));
                assert(x@.subrange(cur_start as int, i + 1) =~= Seq::<char>::empty());
            }
        } else {
            proof {
                assert(x@.subrange(cur_start as int, i + 1) =~= x@.subrange(
                    cur_start as int,
                    i as int,
                ).push(x@[i as int]));
            }
        }
        i += 1;
    }
    let last = string_from_chars(&x, cur_start, i);
    let ghost before = done@;
    done.push(last);
    proof {
        assert(views_of(done@) =~= views_of(before).push(last@));
        assert(x@.take(i as int) =~= s@);
        assert(views_of(done@) =~= split_state(s@, sep).0.push(split_state(s@, sep).1));
    }
    done
}

/// The lines of `str::lines`, built left to right: finished lines and the open one.
/// A line ended by `\n` loses that `\n` and one `\r` just before it.
pub open spec fn lines_state(s: Seq<char>) -> (Seq<Seq<char>>, Seq<char>)
    decreases s.len(),
{
    if s.len() == 0 {
        (seq![], seq![])
    } else {
        let (done, cur) = lines_state(s.drop_last());
        if s.last() == '\n' {
            (done.push(strip_cr(cur)), seq![])
        } else {
            (done, cur.push(s.last()))
        }
    }
}

pub open spec fn strip_cr(line: Seq<char>) -> Seq<char> {
    if line.len() > 0 && line.last() == '\r' {
        line.drop_last()
    } else {
        line
    }
}

/// `str::lines`: a final line without line ending counts, an empty final one does not.
pub open spec fn lines_spec(s: Seq<char>) -> Seq<Seq<char>> {
    let (done, cur) = lines_state(s);
    if cur.len() > 0 {
        done.push(cur)
    } else {
        done
    }
}

/// `str::lines`, collected.
pub fn lines(s: &str) -> (r: Vec<String>)
    ensures
        views_of(r@) == lines_spec(s@),
{
    let x = chars_of(s);
    let mut done: Vec<String> = Vec::new();
    let mut cur_start: usize = 0;
    let mut i: usize = 0;
    while i < x.len()
        invariant
            cur_start <= i <= x@.len(),
            x@ == s@,
            views_of(done@) == lines_state(x@.take(i as int)).0,
            x@.subrange(cur_start as int, i as int) == lines_state(x@.take(i as int)).1,
        decreases x@.len() - i,
    {
        proof {
            assert(x@.take(i + 1).drop_last() =~= x@.take(i as int));
        }
        if x[i] == '\n' {
            let end = if i > cur_start && x[i - 1] == '\r' {
                i - 1
            } else {
                i
            };
            let piece = string_from_chars(&x, cur_start, end);
            let ghost before = done@;
            done.push(piece);
            proof {
                let cur = x@.subrange(cur_start as int, i as int);
                if i > cur_start && x@[i - 1] == '\r' {
                    assert(cur.drop_last() =~= x@.subrange(cur_start as int, end as int));
                }
                assert(strip_cr(cur) == piece@);
                assert(views_of(done@) =~= views_of(before).push(piece@));
            }
            cur_start = i + 1;
            proof {
                assert(x@.subrange(cur_start as int, i + 1) =~= Seq::<char>::empty());
            }
        } else {
            proof {
                assert(x@.subrange(cur_start as int, i + 1) =~= x@.subrange(
                    cur_start as int,
                    i as int,
                ).push(x@[i as int]));
            }
        }
        i += 1;
    }
    proof {
        assert(x@.take(i as int) =~= s@);
    }
    if cur_start < i {
        let last = string_from_chars(&x, cur_start, i);
        let ghost before = done@;
        done.push(last);
        proof {
            assert(views_of(done@) =~= views_of(before).push(last@));
        }
    }
    done
}

pub open spec fn is_digit(c: char) -> bool {
    '0' <= c && c <= '9'
}

pub open spec fn digit_value(c: char) -> int {
    (c as int) - ('0' as int)
}

pub open spec fn all_digits(s: Seq<char>) -> bool {
    forall|i: int| 0 <= i < s.len() ==> is_digit(#[trigger] s[i])
}

/// The number that a run of decimal digits spells.
pub open spec fn digits_value(s: Seq<char>) -> int
    decreases s.len(),
{
    if s.len() == 0 {
        0
    } else {
        10 * digits_value(s.drop_last()) + digit_value(s.last())
    }
}

/// `u16::from_str` / `i64::from_str` in base ten: an optional sign (`-` only for signed
/// types), then at least one digit; a value out of range is refused.
pub open spec fn parse_int_spec(s: Seq<char>, min: int, max: int) -> Option<int> {
    let negative = s.len() > 0 && s[0] == '-' && min < 0;
    let body = if s.len() > 0 && (s[0] == '+' || (s[0] == '-' && min < 0)) {
        s.drop_first()
    } else {
        s
    };
    if body.len() == 0 || !all_digits(body) {
        None
    } else {
        let v = if negative {
            -digits_value(body)
        } else {
            digits_value(body)
        };
        if min <= v && v <= max {
            Some(v)
        } else {
            None
        }
    }
}

proof fn lemma_digits_value_nonneg(s: Seq<char>)
    requires
        all_digits(s),
    ensures
        digits_value(s) >= 0,
    decreases s.len(),
{
    if s.len() > 0 {
        assert(all_digits(s.drop_last())) by {
            assert forall|i: int| 0 <= i < s.drop_last().len() implies is_digit(
                #[trigger] s.drop_last()[i],
            ) by {
                assert(s.drop_last()[i] == s[i]);
            }
        }
        lemma_digits_value_nonneg(s.drop_last());
        assert(is_digit(s[s.len() - 1]));
    }
}

proof fn lemma_digits_value_grows(s: Seq<char>, i: int)
    requires
        all_digits(s),
        0 <= i <= s.len(),
    ensures
        digits_value(s.take(i)) <= digits_value(s),
    decreases s.len() - i,
{
    if i < s.len() {
        assert(all_digits(s.drop_last())) by {
            assert forall|k: int| 0 <= k < s.drop_last().len() implies is_digit(
                #[trigger] s.drop_last()[k],
            ) by {
                assert(s.drop_last()[k] == s[k]);
            }
        }
        assert(s.drop_last().take(i) =~= s.take(i));
        lemma_digits_value_grows(s.drop_last(), i);
        lemma_digits_value_nonneg(s.drop_last());
        assert(is_digit(s[s.len() - 1]));
    } else {
        assert(s.take(i) =~= s);
    }
}

/// Reads the magnitude of `x[start..]` if it is all digits and at most `bound`.
fn parse_magnitude(x: &Vec<char>, start: usize, bound: u64) -> (r: Option<u64>)
    requires
        start <= x@.len(),
        bound >= 9,
    ensures
        r is Some <==> (all_digits(x@.skip(start as int)) && digits_value(x@.skip(start as int))
            <= bound),
        r matches Some(v) ==> v == digits_value(x@.skip(start as int)),
{
    let ghost body = x@.skip(start as int);
    let mut acc: u64 = 0;
    let mut i = start;
    while i < x.len()
        invariant
            start <= i <= x@.len(),
            body == x@.skip(start as int),
            all_digits(body.take(i - start)),
            acc == digits_value(body.take(i - start)),
            acc <= bound,
            bound >= 9,
        decreases x@.len() - i,
    {
        let c = x[i];
        proof {
            assert(body.take(i + 1 - start).drop_last() =~= body.take(i - start));
            assert(body[i - start] == c);
        }
        if !('0' <= c && c <= '9') {
            proof {
                assert(!is_digit(body[i - start]));
            }
            return None;
        }
        let d: u64 = ((c as u32) - ('0' as u32)) as u64;
        proof {
            assert(all_digits(body.take(i + 1 - start))) by {
                assert forall|k: int| 0 <= k < body.take(i + 1 - start).len() implies is_digit(
                    #[trigger] body.take(i + 1 - start)[k],
                ) by {
                    if k < i - start {
                        assert(body.take(i + 1 - start)[k] == body.take(i - start)[k]);
                    }
                }
            }
        }
        if acc > (bound - d) / 10 {
            proof {
                assert(10 * acc + d > bound) by (nonlinear_arith)
                    requires
                        acc > (bound - d) / 10,
                        d <= bound,
                ;
                assert(digits_value(body.take(i + 1 - start)) == 10 * acc + d);
                if all_digits(body) {
                    lemma_digits_value_grows(body, i + 1 - start);
                }
            }
            return None;
        }
        proof {
            assert(10 * acc + d <= bound) by (nonlinear_arith)
                requires
                    acc <= (bound - d) / 10,
                    d <= bound,
            ;
        }
        acc = acc * 10 + d;
        i += 1;
    }
    proof {
        assert(body.take(i - start) =~= body);
    }
    Some(acc)
}

/// `u16::from_str`.
pub fn parse_u16(s: &str) -> (r: Option<u16>)
    ensures
        r matches Some(v) ==> parse_int_spec(s@, 0, 65535) == Some(v as int),
        r is None ==> parse_int_spec(s@, 0, 65535) is None,
{
    let x = chars_of(s);
    let start: usize = if x.len() > 0 && x[0] == '+' { 1 } else { 0 };
    proof {
        if start == 1 {
            assert(x@.skip(1) =~= x@.drop_first());
        } else {
            assert(x@.skip(0) =~= x@);
        }
    }
    if start == x.len() {
        return None;
    }
    match parse_magnitude(&x, start, 65535) {
        Some(v) => Some(v as u16),
        None => None,
    }
}

/// `i64::from_str`.
pub fn parse_i64(s: &str) -> (r: Option<i64>)
    ensures
        r matches Some(v) ==> parse_int_spec(s@, -0x8000_0000_0000_0000, 0x7fff_ffff_ffff_ffff)
            == Some(v as int),
        r is None ==> parse_int_spec(s@, -0x8000_0000_0000_0000, 0x7fff_ffff_ffff_ffff) is None,
{
    let x = chars_of(s);
    let negative = x.len() > 0 && x[0] == '-';
    let start: usize = if x.len() > 0 && (x[0] == '+' || x[0] == '-') { 1 } else { 0 };
    proof {
        if start == 1 {
            assert(x@.skip(1) =~= x@.drop_first());
        } else {
            assert(x@.skip(0) =~= x@);
        }
    }
    if start == x.len() {
        return None;
    }
    if negative {
        match parse_magnitude(&x, start, 0x8000_0000_0000_0000) {
            Some(v) => {
                if v == 0x8000_0000_0000_0000 {
                    Some(-0x7fff_ffff_ffff_ffff - 1)
                } else {
                    Some(-(v as i64))
                }
            },
            None => None,
        }
    } else {
        match parse_magnitude(&x, start, 0x7fff_ffff_ffff_ffff) {
            Some(v) => Some(v as i64),
            None => None,
        }
    }
}

pub open spec fn digit_char(d: int) -> char {
    (d + ('0' as int)) as char
}

/// The decimal spelling of a natural number, as `Display` writes it.
pub open spec fn decimal_spec(n: nat) -> Seq<char>
    decreases n,
{
    if n < 10 {
        seq![digit_char(n as int)]
    } else {
        decimal_spec(n / 10).push(digit_char((n % 10) as int))
    }
}

fn digit(d: u8) -> (c: char)
    requires
        d < 10,
    ensures
        c == digit_char(d as int),
{
    (d + 48) as char
}

/// Appends the decimal spelling of `n` to `s`.
pub fn push_decimal_u8(s: &mut String, n: u8)
    ensures
        final(s)@ == old(s)@ + decimal_spec(n as nat),
{
    if n >= 100 {
        push_char(s, digit(n / 100));
        push_char(s, digit((n / 10) % 10));
        push_char(s, digit(n % 10));
        proof {
            reveal_with_fuel(decimal_spec, 3);
            assert((n as nat / 10) / 10 == n as nat / 100);
            assert(decimal_spec(n as nat) =~= seq![
                digit_char((n / 100) as int),
                digit_char(((n / 10) % 10) as int),
                digit_char((n % 10) as int),
            ]);
        }
    } else if n >= 10 {
        push_char(s, digit(n / 10));
        push_char(s, digit(n % 10));
        proof {
            reveal_with_fuel(decimal_spec, 2);
            assert(decimal_spec(n as nat) =~= seq![
                digit_char((n / 10) as int),
                digit_char((n % 10) as int),
            ]);
        }
    } else {
        push_char(s, digit(n));
        proof {
            assert(decimal_spec(n as nat) =~= seq![digit_char(n as int)]);
        }
    }
}

} // verus!

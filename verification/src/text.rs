//! Character-level helpers shared by the parsers and renderers of the crate.
use vstd::prelude::*;

verus! {

/// The characters of `s`, in order.
pub fn to_chars(s: &str) -> (r: Vec<char>)
    ensures
        r@ == s@,
{
    broadcast use vstd::string::group_string_axioms;

    let mut v: Vec<char> = Vec::new();
    for c in it: s.chars()
        invariant
            it.seq() == s@,
            v@ == s@.take(it.index() as int),
    {
        v.push(c);
    }
    v
}

/// Wraps `String::push`, which appends one character to the string.
#[verifier::external_body]
pub(crate) fn push_char(s: &mut String, c: char)
    ensures
        final(s)@ == old(s)@.push(c),
{
    s.push(c)
}

/// The string made of the characters `v[from..to]`.
pub fn from_chars_range(v: &Vec<char>, from: usize, to: usize) -> (r: String)
    requires
        from <= to <= v.len(),
    ensures
        r@ == v@.subrange(from as int, to as int),
{
    let mut s = String::new();
    let mut i: usize = from;
    while i < to
        invariant
            from <= i <= to <= v.len(),
            s@ == v@.subrange(from as int, i as int),
        decreases to - i,
    {
        push_char(&mut s, v[i]);
        i += 1;
    }
    s
}

/// The string made of the characters of `v`.
pub fn from_chars(v: &Vec<char>) -> (r: String)
    ensures
        r@ == v@,
{
    let r = from_chars_range(v, 0, v.len());
    assert(v@.subrange(0, v.len() as int) == v@);
    r
}

/// Whether two string slices hold the same characters.
pub fn str_eq(a: &str, b: &str) -> (r: bool)
    ensures
        r == (a@ == b@),
{
    a.to_owned() == b.to_owned()
}

/// `p` is the beginning of `s`.
pub open spec fn is_prefix(p: Seq<char>, s: Seq<char>) -> bool {
    p.len() <= s.len() && s.take(p.len() as int) == p
}

/// `needle` occurs in `hay` at position `i`.
pub open spec fn occurs_at(needle: Seq<char>, hay: Seq<char>, i: int) -> bool {
    0 <= i && i + needle.len() <= hay.len() && hay.subrange(i, i + needle.len()) == needle
}

/// `needle` occurs somewhere in `hay`.
pub open spec fn is_substring(needle: Seq<char>, hay: Seq<char>) -> bool {
    exists|i: int| occurs_at(needle, hay, i)
}

/// Whether `p` is the beginning of `s`.
pub fn starts_with(s: &str, p: &str) -> (r: bool)
    ensures
        r == is_prefix(p@, s@),
{
    let text = to_chars(s);
    let start = to_chars(p);
    if start.len() > text.len() {
        return false;
    }
    let mut i: usize = 0;
    while i < start.len()
        invariant
            i <= start.len() <= text.len(),
            text@ == s@,
            start@ == p@,
            text@.take(i as int) == start@.take(i as int),
        decreases start.len() - i,
    {
        if text[i] != start[i] {
            assert(text@.take(start.len() as int)[i as int] != start@[i as int]);
            return false;
        }
        assert(text@.take(i + 1) =~= text@.take(i as int).push(text@[i as int]));
        assert(start@.take(i + 1) =~= start@.take(i as int).push(start@[i as int]));
        i += 1;
    }
    assert(start@.take(i as int) =~= start@);
    true
}

/// Whether `needle` stands in `hay` at position `i`.
fn matches_at(hay: &Vec<char>, needle: &Vec<char>, i: usize) -> (r: bool)
    requires
        i + needle.len() <= hay.len(),
    ensures
        r == occurs_at(needle@, hay@, i as int),
{
    let mut j: usize = 0;
    while j < needle.len()
        invariant
            j <= needle.len(),
            i + needle.len() <= hay.len(),
            hay@.subrange(i as int, i + j) == needle@.take(j as int),
        decreases needle.len() - j,
    {
        if hay[i + j] != needle[j] {
            assert(hay@.subrange(i as int, i + needle.len())[j as int] != needle@[j as int]);
            return false;
        }
        assert(hay@.subrange(i as int, i + j + 1) =~= hay@.subrange(i as int, i + j).push(
            hay@[i + j],
        ));
        assert(needle@.take(j + 1) =~= needle@.take(j as int).push(needle@[j as int]));
        j += 1;
    }
    assert(needle@.take(j as int) =~= needle@);
    true
}

/// Whether `needle` occurs somewhere in `hay`.
pub fn contains(hay: &str, needle: &str) -> (r: bool)
    ensures
        r == is_substring(needle@, hay@),
{
    let text = to_chars(hay);
    let word = to_chars(needle);
    if word.len() > text.len() {
        return false;
    }
    let last: usize = text.len() - word.len();
    let mut i: usize = 0;
    while i < last
        invariant
            i <= last,
            last + word.len() == text.len(),
            text@ == hay@,
            word@ == needle@,
            forall|k: int| 0 <= k < i ==> !occurs_at(needle@, hay@, k),
        decreases last - i,
    {
        if matches_at(&text, &word, i) {
            return true;
        }
        i += 1;
    }
    matches_at(&text, &word, last)
}

/// Position of the first `c` in `s` at or after `from`, or the length of `s`
/// when there is none.
pub open spec fn index_of(s: Seq<char>, c: char, from: int) -> int
    decreases s.len() - from,
{
    if from < 0 || from >= s.len() {
        s.len() as int
    } else if s[from] == c {
        from
    } else {
        index_of(s, c, from + 1)
    }
}

/// The position found lies at or after `from`, holds `c` unless it is the
/// length of `s`, and no position before it holds `c`.
pub proof fn lemma_index_of(s: Seq<char>, c: char, from: int)
    requires
        0 <= from <= s.len(),
    ensures
        from <= index_of(s, c, from) <= s.len(),
        index_of(s, c, from) < s.len() ==> s[index_of(s, c, from)] == c,
        forall|k: int| from <= k < index_of(s, c, from) ==> s[k] != c,
    decreases s.len() - from,
{
    if from < s.len() && s[from] != c {
        lemma_index_of(s, c, from + 1);
    }
}

/// Finds the first `c` in `s` at or after `from`.
pub fn find_char(s: &Vec<char>, c: char, from: usize) -> (r: usize)
    requires
        from <= s.len(),
    ensures
        r == index_of(s@, c, from as int),
        from <= r <= s.len(),
{
    let mut i: usize = from;
    while i < s.len() && s[i] != c
        invariant
            from <= i <= s.len(),
            index_of(s@, c, from as int) == index_of(s@, c, i as int),
        decreases s.len() - i,
    {
        i += 1;
    }
    proof {
        lemma_index_of(s@, c, i as int);
    }
    i
}

/// The pieces of `s` between occurrences of `sep`, as `str::split` yields
/// them for a single-character separator: always at least one piece.
pub open spec fn split_spec(s: Seq<char>, sep: char) -> Seq<Seq<char>>
    decreases s.len(),
{
    let i = index_of(s, sep, 0);
    if 0 <= i < s.len() {
        seq![s.take(i)] + split_spec(s.skip(i + 1), sep)
    } else {
        seq![s]
    }
}

/// The `n`-th piece of `s` split at `sep`, if there are that many.
pub open spec fn split_nth(s: Seq<char>, sep: char, n: nat) -> Option<Seq<char>> {
    let parts = split_spec(s, sep);
    if n < parts.len() {
        Some(parts[n as int])
    } else {
        None
    }
}

proof fn lemma_index_of_skip(s: Seq<char>, c: char, start: int, from: int)
    requires
        0 <= start <= s.len(),
        0 <= from <= s.len() - start,
    ensures
        index_of(s.skip(start), c, from) + start == index_of(s, c, start + from),
    decreases s.len() - start - from,
{
    let t = s.skip(start);
    if from < t.len() {
        assert(t[from] == s[start + from]);
        if t[from] != c {
            lemma_index_of_skip(s, c, start, from + 1);
        }
    }
}

/// Splits `s` at every `sep`.
pub fn split(s: &Vec<char>, sep: char) -> (r: Vec<Vec<char>>)
    ensures
        r.deep_view() == split_spec(s@, sep),
        r.len() >= 1,
{
    let mut out: Vec<Vec<char>> = Vec::new();
    let mut start: usize = 0;
    proof {
        assert(s@.skip(0) == s@);
        assert(out.deep_view() =~= Seq::<Seq<char>>::empty());
        assert(Seq::<Seq<char>>::empty() + split_spec(s@, sep) =~= split_spec(s@, sep));
    }
    loop
        invariant_except_break
            start <= s.len(),
            out.deep_view() + split_spec(s@.skip(start as int), sep) == split_spec(s@, sep),
        ensures
            out.deep_view() == split_spec(s@, sep),
            out.len() >= 1,
        decreases s.len() - start,
    {
        let i = find_char(s, sep, start);
        let mut piece: Vec<char> = Vec::new();
        let mut k: usize = start;
        while k < i
            invariant
                start <= k <= i <= s.len(),
                piece@ == s@.subrange(start as int, k as int),
            decreases i - k,
        {
            piece.push(s[k]);
            k += 1;
        }
        proof {
            let rest = s@.skip(start as int);
            lemma_index_of_skip(s@, sep, start as int, 0);
            assert(index_of(rest, sep, 0) == i - start);
            assert(rest.take(i - start) == piece@);
            let ghost prev = out.deep_view();
            if i < s.len() {
                assert(rest.skip(i - start + 1) == s@.skip(i + 1));
                assert(split_spec(rest, sep) == seq![piece@] + split_spec(s@.skip(i + 1), sep));
            } else {
                assert(rest.take(rest.len() as int) == rest);
                assert(split_spec(rest, sep) == seq![rest]);
            }
        }
        let ghost before = out.deep_view();
        out.push(piece);
        proof {
            assert(piece.deep_view() =~= piece@);
            assert(out.deep_view() =~= before.push(piece@));
            assert(before.push(piece@) =~= before + seq![piece@]);
        }
        if i < s.len() {
            proof {
                let tail = split_spec(s@.skip(i + 1), sep);
                assert((before + seq![piece@]) + tail == before + (seq![piece@] + tail));
            }
            start = i + 1;
        } else {
            break;
        }
    }
    out
}

/// Decimal digits of `n`, most significant first; `"0"` for zero.
pub open spec fn decimal(n: nat) -> Seq<char>
    decreases n,
{
    if n < 10 {
        seq![digit_char(n)]
    } else {
        decimal(n / 10).push(digit_char(n % 10))
    }
}

/// The character for one decimal digit.
pub open spec fn digit_char(d: nat) -> char {
    if d == 0 {
        '0'
    } else if d == 1 {
        '1'
    } else if d == 2 {
        '2'
    } else if d == 3 {
        '3'
    } else if d == 4 {
        '4'
    } else if d == 5 {
        '5'
    } else if d == 6 {
        '6'
    } else if d == 7 {
        '7'
    } else if d == 8 {
        '8'
    } else {
        '9'
    }
}

/// Decimal text of an integer, with a leading `-` for negative numbers.
pub open spec fn int_text(i: int) -> Seq<char> {
    if i < 0 {
        seq!['-'] + decimal((-i) as nat)
    } else {
        decimal(i as nat)
    }
}

/// The value of one decimal digit character, if it is one.
pub open spec fn digit_value(c: char) -> Option<nat> {
    if c == '0' {
        Some(0)
    } else if c == '1' {
        Some(1)
    } else if c == '2' {
        Some(2)
    } else if c == '3' {
        Some(3)
    } else if c == '4' {
        Some(4)
    } else if c == '5' {
        Some(5)
    } else if c == '6' {
        Some(6)
    } else if c == '7' {
        Some(7)
    } else if c == '8' {
        Some(8)
    } else if c == '9' {
        Some(9)
    } else {
        None
    }
}

/// The number written by a non-empty run of decimal digits.
pub open spec fn digits_value(s: Seq<char>) -> Option<nat>
    decreases s.len(),
{
    if s.len() == 0 {
        None
    } else {
        match digit_value(s.last()) {
            None => None,
            Some(d) => if s.len() == 1 {
                Some(d)
            } else {
                match digits_value(s.drop_last()) {
                    None => None,
                    Some(v) => Some(v * 10 + d),
                }
            },
        }
    }
}

/// The number that a text writes with an optional sign and then digits
/// only.
pub open spec fn signed_value(s: Seq<char>) -> Option<int> {
    if s.len() > 0 && s[0] == '-' {
        match digits_value(s.skip(1)) {
            Some(v) => Some(-(v as int)),
            None => None,
        }
    } else if s.len() > 0 && s[0] == '+' {
        match digits_value(s.skip(1)) {
            Some(v) => Some(v as int),
            None => None,
        }
    } else {
        match digits_value(s) {
            Some(v) => Some(v as int),
            None => None,
        }
    }
}

/// The written number when it fits in 64 bits with a sign.
pub open spec fn parse_i64_spec(s: Seq<char>) -> Option<i64> {
    match signed_value(s) {
        Some(v) => if i64::MIN <= v <= i64::MAX {
            Some(v as i64)
        } else {
            None
        },
        None => None,
    }
}

/// The written number when it fits in an unsigned machine word. A leading
/// `+` is accepted, a `-` is not.
pub open spec fn parse_usize_spec(s: Seq<char>) -> Option<usize> {
    if s.len() > 0 && s[0] == '-' {
        None
    } else {
        match signed_value(s) {
            Some(v) => if v <= usize::MAX {
                Some(v as usize)
            } else {
                None
            },
            None => None,
        }
    }
}

/// The character for one decimal digit.
fn digit(d: u8) -> (r: char)
    requires
        d < 10,
    ensures
        r == digit_char(d as nat),
{
    if d == 0 {
        '0'
    } else if d == 1 {
        '1'
    } else if d == 2 {
        '2'
    } else if d == 3 {
        '3'
    } else if d == 4 {
        '4'
    } else if d == 5 {
        '5'
    } else if d == 6 {
        '6'
    } else if d == 7 {
        '7'
    } else if d == 8 {
        '8'
    } else {
        '9'
    }
}

/// The value of one decimal digit character.
fn digit_of(c: char) -> (r: Option<u8>)
    ensures
        match r {
            Some(d) => d < 10 && digit_value(c) == Some(d as nat),
            None => digit_value(c) is None,
        },
{
    if c == '0' {
        Some(0)
    } else if c == '1' {
        Some(1)
    } else if c == '2' {
        Some(2)
    } else if c == '3' {
        Some(3)
    } else if c == '4' {
        Some(4)
    } else if c == '5' {
        Some(5)
    } else if c == '6' {
        Some(6)
    } else if c == '7' {
        Some(7)
    } else if c == '8' {
        Some(8)
    } else if c == '9' {
        Some(9)
    } else {
        None
    }
}

/// The decimal digits of `n`.
fn decimal_string(n: u128) -> (r: String)
    ensures
        r@ == decimal(n as nat),
    decreases n,
{
    if n < 10 {
        let mut s = String::new();
        push_char(&mut s, digit(n as u8));
        assert(s@ =~= seq![digit_char(n as nat)]);
        s
    } else {
        let mut s = decimal_string(n / 10);
        push_char(&mut s, digit((n % 10) as u8));
        s
    }
}

/// The decimal text of a number, as `to_string` writes it.
pub fn int_to_string(i: i128) -> (r: String)
    ensures
        r@ == int_text(i as int),
{
    if i < 0 {
        let magnitude: u128 = (-(i + 1)) as u128 + 1;
        let mut s = String::new();
        push_char(&mut s, '-');
        s.append(decimal_string(magnitude).as_str());
        assert(s@ =~= seq!['-'] + decimal((-i) as nat));
        s
    } else {
        decimal_string(i as u128)
    }
}

/// A text is a number exactly when it is not empty and all its characters
/// are digits.
pub proof fn lemma_digits_value(s: Seq<char>)
    ensures
        digits_value(s) is Some <==> s.len() > 0 && forall|i: int|
            0 <= i < s.len() ==> digit_value(#[trigger] s[i]) is Some,
    decreases s.len(),
{
    if s.len() > 1 {
        lemma_digits_value(s.drop_last());
        let t = s.drop_last();
        if digits_value(s) is Some {
            assert forall|i: int| 0 <= i < s.len() implies digit_value(#[trigger] s[i]) is Some by {
                if i < t.len() {
                    assert(t[i] == s[i]);
                }
            }
        } else if forall|i: int| 0 <= i < s.len() ==> digit_value(#[trigger] s[i]) is Some {
            assert forall|i: int| 0 <= i < t.len() implies digit_value(#[trigger] t[i]) is Some by {
                assert(t[i] == s[i]);
            }
        }
    }
}

/// The decimal digits of a number are digits only, and write the number.
pub proof fn lemma_decimal_reads_back(n: nat)
    ensures
        decimal(n).len() > 0,
        forall|i: int| 0 <= i < decimal(n).len() ==> digit_value(#[trigger] decimal(n)[i]) is Some,
        digits_value(decimal(n)) == Some(n),
    decreases n,
{
    if n >= 10 {
        let head = decimal(n / 10);
        let s = decimal(n);
        lemma_decimal_reads_back(n / 10);
        assert(s == head.push(digit_char(n % 10)));
        assert(s.drop_last() =~= head);
        assert(s.last() == digit_char(n % 10));
        assert(digit_value(digit_char(n % 10)) == Some(n % 10));
        assert forall|i: int| 0 <= i < s.len() implies digit_value(#[trigger] s[i]) is Some by {
            if i < head.len() {
                assert(s[i] == head[i]);
            }
        }
    } else {
        assert(decimal(n) == seq![digit_char(n)]);
        assert(digit_value(digit_char(n)) == Some(n));
    }
}

/// The decimal text of an integer, read as a number, is the integer; and
/// the text holds nothing but digits after the sign.
pub proof fn lemma_int_text_reads_back(i: int)
    ensures
        signed_value(int_text(i)) == Some(i),
        forall|k: int|
            0 <= k < int_text(i).len() ==> (#[trigger] int_text(i)[k]) == '-' || digit_value(
                int_text(i)[k],
            ) is Some,
{
    let s = int_text(i);
    if i < 0 {
        let digits = decimal((-i) as nat);
        lemma_decimal_reads_back((-i) as nat);
        assert(s == seq!['-'] + digits);
        assert(s.skip(1) =~= digits);
        assert(s[0] == '-');
        assert forall|k: int| 0 <= k < s.len() implies (#[trigger] s[k]) == '-' || digit_value(
            s[k],
        ) is Some by {
            if k > 0 {
                assert(s[k] == digits[k - 1]);
            }
        }
    } else {
        lemma_decimal_reads_back(i as nat);
        assert(digit_value(s[0]) is Some);
    }
}

/// Reads the number that the digits `s[from..]` write: nothing where they are
/// no number, and no value where the number is beyond `limit`.
fn parse_digits(s: &Vec<char>, from: usize, limit: u128) -> (r: Option<Option<u128>>)
    requires
        from <= s.len(),
        limit <= 0x1_0000_0000_0000_0000,
    ensures
        match digits_value(s@.skip(from as int)) {
            Some(v) => r == Some(
                if v <= limit {
                    Some(v as u128)
                } else {
                    None::<u128>
                },
            ),
            None => r is None,
        },
{
    let ghost all = s@.skip(from as int);
    proof {
        lemma_digits_value(all);
    }
    if from == s.len() {
        return None;
    }
    let mut acc: u128 = 0;
    let mut fits = true;
    let ghost mut value: nat = 0;
    let mut i: usize = from;
    while i < s.len()
        invariant
            from <= i <= s.len(),
            from < s.len(),
            all == s@.skip(from as int),
            limit <= 0x1_0000_0000_0000_0000,
            i > from ==> digits_value(s@.subrange(from as int, i as int)) == Some(value),
            i == from ==> value == 0 && acc == 0 && fits,
            fits ==> acc == value && value <= limit,
            !fits ==> value > limit,
            forall|k: int| from <= k < i ==> digit_value(#[trigger] s@[k]) is Some,
        decreases s.len() - i,
    {
        let d = match digit_of(s[i]) {
            Some(d) => d,
            None => {
                proof {
                    lemma_digits_value(all);
                    assert(all[i - from] == s@[i as int]);
                }
                return None;
            },
        };
        proof {
            let next = s@.subrange(from as int, i + 1);
            assert(next.last() == s@[i as int]);
            assert(next.drop_last() =~= s@.subrange(from as int, i as int));
            value = if i == from {
                d as nat
            } else {
                value * 10 + d as nat
            };
        }
        if fits {
            acc = acc * 10 + d as u128;
            if acc > limit {
                fits = false;
            }
        }
        i += 1;
    }
    proof {
        assert(s@.subrange(from as int, i as int) =~= all);
    }
    if fits {
        Some(Some(acc))
    } else {
        Some(None)
    }
}

/// Reads a signed number in decimal, as `str::parse::<i64>` does: an optional
/// sign, then digits only, within the range of the type.
pub fn parse_i64(s: &str) -> (r: Option<i64>)
    ensures
        r == parse_i64_spec(s@),
{
    let chars = to_chars(s);
    if chars.len() > 0 && chars[0] == '-' {
        match parse_digits(&chars, 1, 0x8000_0000_0000_0000) {
            Some(Some(v)) => if v == 0x8000_0000_0000_0000 {
                Some(-0x8000_0000_0000_0000)
            } else {
                Some(-(v as i64))
            },
            _ => None,
        }
    } else {
        let from: usize = if chars.len() > 0 && chars[0] == '+' {
            1
        } else {
            0
        };
        proof {
            assert(chars@.skip(0) =~= chars@);
        }
        match parse_digits(&chars, from, 0x7fff_ffff_ffff_ffff) {
            Some(Some(v)) => Some(v as i64),
            _ => None,
        }
    }
}

/// Reads an unsigned number in decimal, as `str::parse::<usize>` does: an
/// optional `+`, then digits only, within the range of the type.
pub fn parse_usize(s: &str) -> (r: Option<usize>)
    ensures
        r == parse_usize_spec(s@),
{
    let chars = to_chars(s);
    if chars.len() > 0 && chars[0] == '-' {
        return None;
    }
    let from: usize = if chars.len() > 0 && chars[0] == '+' {
        1
    } else {
        0
    };
    proof {
        assert(chars@.skip(0) =~= chars@);
    }
    match parse_digits(&chars, from, usize::MAX as u128) {
        Some(Some(v)) => Some(v as usize),
        _ => None,
    }
}

/// `a` followed by `b`.
pub fn joined(a: &str, b: &str) -> (r: String)
    ensures
        r@ == a@ + b@,
{
    let mut s = a.to_owned();
    s.append(b);
    s
}

} // verus!

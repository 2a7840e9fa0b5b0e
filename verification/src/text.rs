use vstd::prelude::*;

verus! {

broadcast use vstd::string::group_string_axioms;

/// The characters of `s`, in order.
pub fn chars_of(s: &str) -> (res: Vec<char>)
    ensures
        res@ == s@,
{
    let mut out: Vec<char> = Vec::new();
    for c in it: s.chars()
        invariant
            out@ == it.seq().take(it.index()),
    {
        out.push(c);
    }
    assert(out@ =~= s@);
    out
}


/// `String::push` from std: appends one character.
#[verifier::external_body]
fn push_char(s: &mut String, c: char)
    ensures
        final(s)@ == old(s)@.push(c),
{
    s.push(c);
}

/// A `String` holding exactly the characters `cs`.
pub fn string_of(cs: &[char]) -> (res: String)
    ensures
        res@ == cs@,
{
    let mut out = String::new();
    let mut i: usize = 0;
    while i < cs.len()
        invariant
            i <= cs@.len(),
            out@ == cs@.take(i as int),
        decreases cs@.len() - i,
    {
        push_char(&mut out, cs[i]);
        i = i + 1;
        assert(out@ =~= cs@.take(i as int));
    }
    assert(cs@.take(i as int) =~= cs@);
    out
}

/// Whether two character sequences are equal.
pub fn chars_eq(a: &[char], b: &[char]) -> (res: bool)
    ensures
        res == (a@ == b@),
{
    if a.len() != b.len() {
        return false;
    }
    let mut i: usize = 0;
    while i < a.len()
        invariant
            a@.len() == b@.len(),
            i <= a@.len(),
            forall|j: int| 0 <= j < i ==> a@[j] == b@[j],
        decreases a@.len() - i,
    {
        if a[i] != b[i] {
            return false;
        }
        i = i + 1;
    }
    assert(a@ =~= b@);
    true
}

/// The fields of `s` separated by `sep`, as `str::split` gives them: there is always at
/// least one field, and a separator at either end gives an empty field there.
pub open spec fn split_fields(s: Seq<char>, sep: char) -> Seq<Seq<char>>
    decreases s.len(),
{
    if s.len() == 0 {
        seq![Seq::empty()]
    } else {
        let front = split_fields(s.drop_last(), sep);
        if s.last() == sep {
            front.push(Seq::empty())
        } else {
            front.update(front.len() - 1, front.last().push(s.last()))
        }
    }
}

/// The fields joined back together, with `sep` between neighbours.
pub open spec fn join_fields(fields: Seq<Seq<char>>, sep: char) -> Seq<char>
    decreases fields.len(),
{
    if fields.len() <= 1 {
        if fields.len() == 1 { fields[0] } else { Seq::empty() }
    } else {
        join_fields(fields.drop_last(), sep).push(sep) + fields.last()
    }
}

/// A split always has at least one field.
pub proof fn lemma_split_fields_nonempty(s: Seq<char>, sep: char)
    ensures
        split_fields(s, sep).len() >= 1,
    decreases s.len(),
{
    if s.len() > 0 {
        lemma_split_fields_nonempty(s.drop_last(), sep);
    }
}

proof fn lemma_join_extend_last(fields: Seq<Seq<char>>, sep: char, c: char)
    requires
        fields.len() >= 1,
    ensures
        join_fields(fields.update(fields.len() - 1, fields.last().push(c)), sep)
            == join_fields(fields, sep).push(c),
{
    let upd = fields.update(fields.len() - 1, fields.last().push(c));
    if fields.len() > 1 {
        assert(upd.drop_last() =~= fields.drop_last());
        assert(join_fields(fields.drop_last(), sep).push(sep) + fields.last().push(c)
            =~= (join_fields(fields.drop_last(), sep).push(sep) + fields.last()).push(c));
    }
}

/// Splitting on a separator and joining the fields with it gives back the original text.
pub proof fn lemma_join_split(s: Seq<char>, sep: char)
    ensures
        join_fields(split_fields(s, sep), sep) == s,
    decreases s.len(),
{
    if s.len() == 0 {
    } else {
        let front = split_fields(s.drop_last(), sep);
        lemma_join_split(s.drop_last(), sep);
        lemma_split_fields_nonempty(s.drop_last(), sep);
        if s.last() == sep {
            let fields = front.push(Seq::<char>::empty());
            assert(fields.drop_last() =~= front);
            assert(join_fields(front, sep).push(sep) + Seq::<char>::empty() =~= s);
        } else {
            lemma_join_extend_last(front, sep, s.last());
            assert(s.drop_last().push(s.last()) =~= s);
        }
    }
}

/// No field of a split holds the separator.
pub proof fn lemma_split_fields_have_no_separator(s: Seq<char>, sep: char)
    ensures
        forall|i: int, j: int|
            0 <= i < split_fields(s, sep).len() && 0 <= j < split_fields(s, sep)[i].len()
                ==> split_fields(s, sep)[i][j] != sep,
    decreases s.len(),
{
    if s.len() > 0 {
        lemma_split_fields_have_no_separator(s.drop_last(), sep);
        lemma_split_fields_nonempty(s.drop_last(), sep);
        let front = split_fields(s.drop_last(), sep);
        let res = split_fields(s, sep);
        assert forall|i: int, j: int| 0 <= i < res.len() && 0 <= j < res[i].len()
            implies res[i][j] != sep by {
            if s.last() == sep {
                if i < front.len() {
                    assert(res[i] == front[i]);
                }
            } else {
                if i < front.len() - 1 {
                    assert(res[i] == front[i]);
                } else if j < front.last().len() {
                    assert(res[i][j] == front.last()[j]);
                }
            }
        }
    }
}

/// The character sequences held by a vector of character vectors.
pub open spec fn char_views(v: Seq<Vec<char>>) -> Seq<Seq<char>> {
    v.map_values(|x: Vec<char>| x@)
}

/// Splits `s` on `sep`, as `str::split` does.
pub fn split_on(s: &[char], sep: char) -> (res: Vec<Vec<char>>)
    ensures
        char_views(res@) == split_fields(s@, sep),
{
    let mut fields: Vec<Vec<char>> = Vec::new();
    let mut cur: Vec<char> = Vec::new();
    let mut i: usize = 0;
    while i < s.len()
        invariant
            i <= s@.len(),
            char_views(fields@).push(cur@) == split_fields(s@.take(i as int), sep),
        decreases s@.len() - i,
    {
        let c = s[i];
        let ghost before = char_views(fields@).push(cur@);
        assert(s@.take(i + 1).drop_last() =~= s@.take(i as int));
        if c == sep {
            fields.push(cur);
            cur = Vec::new();
            assert(char_views(fields@).push(cur@) =~= before.push(Seq::empty()));
        } else {
            cur.push(c);
            assert(char_views(fields@).push(cur@) =~= before.update(before.len() - 1, before.last().push(c)));
        }
        i = i + 1;
    }
    assert(s@.take(i as int) =~= s@);
    let ghost before = char_views(fields@).push(cur@);
    fields.push(cur);
    assert(char_views(fields@) =~= before);
    fields
}

/// Whether `c` is an ASCII decimal digit.
pub open spec fn is_digit(c: char) -> bool {
    '0' <= c && c <= '9'
}

/// Whether `s` is made of ASCII decimal digits only.
pub open spec fn all_digits(s: Seq<char>) -> bool {
    forall|i: int| 0 <= i < s.len() ==> is_digit(#[trigger] s[i])
}

/// The number that the decimal digits `s` stand for.
pub open spec fn digits_value(s: Seq<char>) -> nat
    decreases s.len(),
{
    if s.len() == 0 {
        0
    } else {
        digits_value(s.drop_last()) * 10 + ((s.last() as int - '0' as int) as nat)
    }
}

/// A non-empty run of digits whose value is at most `max`.
pub open spec fn parse_digits(s: Seq<char>, max: int) -> Option<nat> {
    if s.len() > 0 && all_digits(s) && digits_value(s) <= max {
        Some(digits_value(s))
    } else {
        None
    }
}

/// What `str::parse` gives for an unsigned integer type whose largest value is `max`:
/// an optional `+` followed by digits, and no more than `max`.
pub open spec fn parse_unsigned(s: Seq<char>, max: int) -> Option<nat> {
    if s.len() > 0 && s[0] == '+' {
        parse_digits(s.drop_first(), max)
    } else {
        parse_digits(s, max)
    }
}

/// What `str::parse` gives for a signed integer type with range `min..=max`:
/// an optional `+` or `-` followed by digits, and within the range.
pub open spec fn parse_signed(s: Seq<char>, min: int, max: int) -> Option<int> {
    if s.len() > 0 && s[0] == '-' {
        match parse_digits(s.drop_first(), -min) {
            Some(v) => Some(-v),
            None => None,
        }
    } else {
        match parse_unsigned(s, max) {
            Some(v) => Some(v as int),
            None => None,
        }
    }
}

proof fn lemma_digits_value_prefix(s: Seq<char>, i: int)
    requires
        all_digits(s),
        0 <= i <= s.len(),
    ensures
        digits_value(s.take(i)) <= digits_value(s),
    decreases s.len(),
{
    if i < s.len() {
        assert(all_digits(s.drop_last()));
        assert(s.drop_last().take(i) =~= s.take(i));
        lemma_digits_value_prefix(s.drop_last(), i);
    } else {
        assert(s.take(i) =~= s);
    }
}

/// Reads the digits `s[start..]` as a number no larger than `max`.
fn parse_digits_from(s: &[char], start: usize, max: u64) -> (res: Option<u64>)
    requires
        start <= s@.len(),
    ensures
        match res {
            Some(v) => parse_digits(s@.skip(start as int), max as int) == Some(v as nat),
            None => parse_digits(s@.skip(start as int), max as int) is None,
        },
{
    let ghost body = s@.skip(start as int);
    if start == s.len() {
        return None;
    }
    let mut value: u64 = 0;
    let mut i: usize = start;
    while i < s.len()
        invariant
            start <= i <= s@.len(),
            body == s@.skip(start as int),
            all_digits(body.take(i - start)),
            value as nat == digits_value(body.take(i - start)),
            value <= max,
        decreases s@.len() - i,
    {
        let c = s[i];
        assert(body.take(i + 1 - start).drop_last() =~= body.take(i - start));
        assert(body[i - start] == c);
        if c < '0' || c > '9' {
            assert(!is_digit(body[i - start]));
            return None;
        }
        let d = (c as u32 - '0' as u32) as u64;
        let next: u128 = value as u128 * 10 + d as u128;
        if next > max as u128 {
            assert(all_digits(body.take(i + 1 - start)));
            proof {
                if all_digits(body) {
                    lemma_digits_value_prefix(body, (i + 1 - start) as int);
                }
            }
            return None;
        }
        value = next as u64;
        i = i + 1;
    }
    assert(body.take(i - start) =~= body);
    Some(value)
}

/// `str::parse` for an unsigned integer type whose largest value is `max`.
pub fn parse_unsigned_chars(s: &[char], max: u64) -> (res: Option<u64>)
    ensures
        match res {
            Some(v) => parse_unsigned(s@, max as int) == Some(v as nat),
            None => parse_unsigned(s@, max as int) is None,
        },
{
    if s.len() > 0 && s[0] == '+' {
        assert(s@.drop_first() =~= s@.skip(1));
        parse_digits_from(s, 1, max)
    } else {
        assert(s@ =~= s@.skip(0));
        parse_digits_from(s, 0, max)
    }
}

/// `str::parse::<i32>`.
pub fn parse_i32_chars(s: &[char]) -> (res: Option<i32>)
    ensures
        match res {
            Some(v) => parse_signed(s@, i32::MIN as int, i32::MAX as int) == Some(v as int),
            None => parse_signed(s@, i32::MIN as int, i32::MAX as int) is None,
        },
{
    if s.len() > 0 && s[0] == '-' {
        assert(s@.drop_first() =~= s@.skip(1));
        match parse_digits_from(s, 1, 2147483648) {
            Some(v) => Some((0 - v as i64) as i32),
            None => None,
        }
    } else {
        match parse_unsigned_chars(s, 2147483647) {
            Some(v) => Some(v as i32),
            None => None,
        }
    }
}

/// The decimal digit for `d < 10`.
pub open spec fn digit_char(d: nat) -> char {
    ((d + '0' as nat) as u32) as char
}

/// The decimal representation of `n`, as `to_string` writes it.
pub open spec fn decimal(n: nat) -> Seq<char>
    decreases n,
{
    if n < 10 {
        seq![digit_char(n)]
    } else {
        decimal(n / 10).push(digit_char(n % 10))
    }
}

fn digit_to_char(d: u8) -> (c: char)
    requires
        d < 10,
    ensures
        c == digit_char(d as nat),
{
    if d == 0 { '0' } else if d == 1 { '1' } else if d == 2 { '2' } else if d == 3 { '3' }
    else if d == 4 { '4' } else if d == 5 { '5' } else if d == 6 { '6' } else if d == 7 { '7' }
    else if d == 8 { '8' } else { '9' }
}

/// The decimal representation of a byte.
pub fn u8_decimal(n: u8) -> (res: Vec<char>)
    ensures
        res@ == decimal(n as nat),
{
    let mut out: Vec<char> = Vec::new();
    if n >= 100 {
        out.push(digit_to_char(n / 100));
        out.push(digit_to_char((n / 10) % 10));
        out.push(digit_to_char(n % 10));
        let ghost t = (n / 10) as nat;
        assert(t / 10 == n / 100 && t % 10 == (n / 10) % 10 && t >= 10 && n / 100 < 10);
        assert(decimal(t / 10) == seq![digit_char(t / 10)]);
        assert(decimal(t) == decimal(t / 10).push(digit_char(t % 10)));
        assert(decimal(t) =~= seq![digit_char((n / 100) as nat), digit_char(((n / 10) % 10) as nat)]);
        assert(out@ =~= decimal(n as nat));
    } else if n >= 10 {
        out.push(digit_to_char(n / 10));
        out.push(digit_to_char(n % 10));
        assert(decimal((n / 10) as nat) == seq![digit_char((n / 10) as nat)]);
        assert(out@ =~= decimal(n as nat));
    } else {
        out.push(digit_to_char(n));
        assert(out@ =~= decimal(n as nat));
    }
    out
}

} // verus!

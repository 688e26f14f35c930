use vstd::prelude::*;

verus! {

/// The decimal digit character of `d` (for `d` in `0..10`).
pub open spec fn digit_char(d: int) -> char {
    seq!['0', '1', '2', '3', '4', '5', '6', '7', '8', '9'][d]
}

/// The shortest decimal spelling of `n`, as `{}` prints an unsigned integer.
pub open spec fn decimal_text(n: nat) -> Seq<char>
    decreases n,
{
    if n < 10 {
        seq![digit_char(n as int)]
    } else {
        decimal_text(n / 10).push(digit_char((n % 10) as int))
    }
}

/// `n` spelled with exactly two decimal digits, as `{:02}` prints a number
/// below 100.
pub open spec fn two_digit_text(n: nat) -> Seq<char> {
    seq![digit_char((n / 10) as int), digit_char((n % 10) as int)]
}

/// The texts of `parts` joined, with `sep` between each two neighbours.
pub open spec fn joined(parts: Seq<Seq<char>>, sep: Seq<char>) -> Seq<char>
    decreases parts.len(),
{
    if parts.len() == 0 {
        Seq::empty()
    } else if parts.len() == 1 {
        parts[0]
    } else {
        joined(parts.drop_last(), sep) + sep + parts.last()
    }
}

/// The one-character text of the digit `d`.
pub fn digit_str(d: u64) -> (text: &'static str)
    requires
        d < 10,
    ensures
        text@ == seq![digit_char(d as int)],
{
    proof {
        reveal_strlit("0");
        reveal_strlit("1");
        reveal_strlit("2");
        reveal_strlit("3");
        reveal_strlit("4");
        reveal_strlit("5");
        reveal_strlit("6");
        reveal_strlit("7");
        reveal_strlit("8");
        reveal_strlit("9");
    }
    if d == 0 {
        "0"
    } else if d == 1 {
        "1"
    } else if d == 2 {
        "2"
    } else if d == 3 {
        "3"
    } else if d == 4 {
        "4"
    } else if d == 5 {
        "5"
    } else if d == 6 {
        "6"
    } else if d == 7 {
        "7"
    } else if d == 8 {
        "8"
    } else {
        "9"
    }
}

/// The decimal spelling of `n`.
pub fn decimal(n: u64) -> (text: String)
    ensures
        text@ == decimal_text(n as nat),
    decreases n,
{
    if n < 10 {
        String::from_str(digit_str(n))
    } else {
        let mut text = decimal(n / 10);
        text.append(digit_str(n % 10));
        text
    }
}

/// `n` spelled with two decimal digits, a leading zero where `n < 10`.
pub fn two_digits(n: u64) -> (text: String)
    requires
        n < 100,
    ensures
        text@ == two_digit_text(n as nat),
{
    let mut text = String::from_str(digit_str(n / 10));
    text.append(digit_str(n % 10));
    text
}

/// Whether two texts hold the same characters.
pub fn same_text(a: &str, b: &str) -> (same: bool)
    ensures
        same == (a@ == b@),
{
    let n = a.unicode_len();
    if n != b.unicode_len() {
        return false;
    }
    let mut i: usize = 0;
    while i < n
        invariant
            n == a@.len(),
            n == b@.len(),
            i <= n,
            forall|j: int| 0 <= j < i ==> a@[j] == b@[j],
        decreases n - i,
    {
        if a.get_char(i) != b.get_char(i) {
            return false;
        }
        i = i + 1;
    }
    assert(a@ == b@);
    true
}

/// The texts of `parts` joined with `sep` between each two neighbours.
pub fn join_texts(parts: &Vec<String>, sep: &str) -> (text: String)
    ensures
        text@ == joined(parts@.map_values(|p: String| p@), sep@),
{
    let ghost views = parts@.map_values(|p: String| p@);
    let mut text = String::new();
    let mut i: usize = 0;
    while i < parts.len()
        invariant
            views == parts@.map_values(|p: String| p@),
            i <= parts.len(),
            text@ == joined(views.take(i as int), sep@),
        decreases parts.len() - i,
    {
        assert(views.take(i + 1).drop_last() == views.take(i as int));
        assert(views.take(i + 1).last() == parts@[i as int]@);
        if i != 0 {
            text.append(sep);
        } else {
            assert(views.take(1) == seq![parts@[0]@]);
        }
        text.append(parts[i].as_str());
        i = i + 1;
    }
    assert(views.take(parts.len() as int) == views);
    text
}

} // verus!

verus! {

/// The characters of `s`, in order.
pub fn chars_of(s: &str) -> (out: Vec<char>)
    ensures
        out@ == s@,
{
    broadcast use vstd::string::group_string_axioms;
    let mut out: Vec<char> = Vec::new();
    for c in it: s.chars()
        invariant
            it.seq() == s@,
            out@ == it.seq().take(it.index() as int),
    {
        out.push(c);
    }
    out
}

} // verus!

verus! {

/// Whether `c` is an ASCII decimal digit.
pub open spec fn is_digit(c: char) -> bool {
    48 <= (c as u32) && (c as u32) <= 57
}

/// The value of the ASCII digit `c`.
pub open spec fn digit_value(c: char) -> nat {
    ((c as u32) - 48) as nat
}

/// Whether every character of `s` is an ASCII decimal digit.
pub open spec fn all_digits(s: Seq<char>) -> bool {
    forall|i: int| 0 <= i < s.len() ==> #[trigger] is_digit(s[i])
}

/// The number that the digits `s` spell in base ten.
pub open spec fn digits_value(s: Seq<char>) -> nat
    decreases s.len(),
{
    if s.len() == 0 {
        0
    } else {
        digits_value(s.drop_last()) * 10 + digit_value(s.last())
    }
}

/// What `str::parse::<i32>` gives back for `s`: an optional `+` or `-`,
/// then one or more ASCII digits whose value fits in an `i32`; anything
/// else is refused (`None`).
pub open spec fn parse_i32_text(s: Seq<char>) -> Option<i32> {
    if s.len() == 0 {
        None
    } else {
        let signed = s[0] == '-' || s[0] == '+';
        let body = if signed {
            s.drop_first()
        } else {
            s
        };
        if body.len() == 0 || !all_digits(body) {
            None
        } else if s[0] == '-' {
            if digits_value(body) <= 0x8000_0000 {
                Some((0 - digits_value(body)) as i32)
            } else {
                None
            }
        } else if digits_value(body) <= 0x7fff_ffff {
            Some(digits_value(body) as i32)
        } else {
            None
        }
    }
}

/// Adding digits never makes a number smaller.
pub proof fn lemma_digits_value_prefix(s: Seq<char>, k: int)
    requires
        0 <= k <= s.len(),
        all_digits(s),
    ensures
        digits_value(s.take(k)) <= digits_value(s),
    decreases s.len(),
{
    if k < s.len() {
        let init = s.drop_last();
        assert(all_digits(init)) by {
            assert forall|i: int| 0 <= i < init.len() implies #[trigger] is_digit(init[i]) by {
                assert(init[i] == s[i]);
            }
        }
        assert(init.take(k) == s.take(k));
        lemma_digits_value_prefix(init, k);
    } else {
        assert(s.take(k) == s);
    }
}

/// `s` read as an `i32`, as `str::parse::<i32>` reads it.
pub fn parse_i32(s: &str) -> (value: Option<i32>)
    ensures
        value == parse_i32_text(s@),
{
    let chars = chars_of(s);
    let n = chars.len();
    if n == 0 {
        return None;
    }
    let negative = chars[0] == '-';
    let start: usize = if chars[0] == '-' || chars[0] == '+' {
        1
    } else {
        0
    };
    let ghost body = chars@.skip(start as int);
    assert(start == 1 ==> body == s@.drop_first());
    assert(start == 0 ==> body == s@);
    if start == n {
        return None;
    }
    let mut acc: u64 = 0;
    let mut i: usize = start;
    while i < n
        invariant
            chars@ == s@,
            n == chars@.len(),
            start <= i <= n,
            body == chars@.skip(start as int),
            start == 1 ==> body == s@.drop_first(),
            start == 0 ==> body == s@,
            n > 0,
            start == (if s@[0] == '-' || s@[0] == '+' { 1usize } else { 0usize }),
            negative == (s@[0] == '-'),
            all_digits(body.take(i - start)),
            acc == digits_value(body.take(i - start)),
            acc <= 0x8000_0000,
        decreases n - i,
    {
        let c = chars[i];
        let ghost prefix = body.take(i - start);
        assert(body.take(i - start + 1) == prefix.push(c));
        assert(body.take(i - start + 1).drop_last() == prefix);
        let code = c as u32;
        if !(48 <= code && code <= 57) {
            assert(!all_digits(body)) by {
                assert(body[i - start] == c);
                assert(!is_digit(body[i - start]));
            }
            return None;
        }
        let d = (code - 48) as u64;
        acc = acc * 10 + d;
        assert(all_digits(body.take(i - start + 1))) by {
            assert forall|j: int| 0 <= j < i - start + 1 implies #[trigger] is_digit(
                body.take(i - start + 1)[j],
            ) by {
                if j < i - start {
                    assert(body.take(i - start + 1)[j] == prefix[j]);
                }
            }
        }
        if acc > 0x8000_0000 {
            proof {
                if all_digits(body) {
                    lemma_digits_value_prefix(body, i - start + 1);
                }
            }
            return None;
        }
        i = i + 1;
    }
    assert(body.take(n - start) == body);
    if negative {
        Some((0 - (acc as i64)) as i32)
    } else if acc <= 0x7fff_ffff {
        Some(acc as i32)
    } else {
        None
    }
}

/// The part of `s` after its last `.` (all of `s` where it has none).
pub open spec fn last_segment(s: Seq<char>) -> Seq<char>
    decreases s.len(),
{
    if s.len() == 0 {
        s
    } else if s.last() == '.' {
        Seq::empty()
    } else {
        last_segment(s.drop_last()).push(s.last())
    }
}

/// The index in `s` just past its last `.` (0 where it has none).
pub fn last_segment_start(s: &Vec<char>) -> (start: usize)
    ensures
        start <= s@.len(),
        s@.skip(start as int) == last_segment(s@),
{
    let mut start: usize = 0;
    let mut i: usize = 0;
    while i < s.len()
        invariant
            start <= i <= s@.len(),
            s@.subrange(start as int, i as int) == last_segment(s@.take(i as int)),
        decreases s.len() - i,
    {
        assert(s@.take(i + 1).drop_last() == s@.take(i as int));
        if s[i] == '.' {
            start = i + 1;
        }
        i = i + 1;
    }
    assert(s@.take(s@.len() as int) == s@);
    start
}

} // verus!

verus! {

/// The digit characters are digits with the values they stand for.
pub proof fn lemma_digit_char(d: int)
    requires
        0 <= d < 10,
    ensures
        is_digit(digit_char(d)),
        digit_value(digit_char(d)) == d,
{
    let t = seq!['0', '1', '2', '3', '4', '5', '6', '7', '8', '9'];
    assert(t[0] == '0' && t[1] == '1' && t[2] == '2' && t[3] == '3' && t[4] == '4');
    assert(t[5] == '5' && t[6] == '6' && t[7] == '7' && t[8] == '8' && t[9] == '9');
}

/// The decimal spelling of `n` is a non-empty run of digits whose value
/// is `n`.
pub proof fn lemma_decimal_digits(n: nat)
    ensures
        decimal_text(n).len() >= 1,
        all_digits(decimal_text(n)),
        digits_value(decimal_text(n)) == n,
    decreases n,
{
    let t = decimal_text(n);
    if n < 10 {
        lemma_digit_char(n as int);
        assert(t.drop_last() == Seq::<char>::empty());
        assert(digits_value(Seq::<char>::empty()) == 0);
        assert(t.last() == digit_char(n as int));
        assert(digits_value(t) == digits_value(t.drop_last()) * 10 + digit_value(t.last()));
    } else {
        lemma_decimal_digits(n / 10);
        lemma_digit_char((n % 10) as int);
        let p = decimal_text(n / 10);
        assert(t.drop_last() == p);
        assert forall|i: int| 0 <= i < t.len() implies #[trigger] is_digit(t[i]) by {
            if i < p.len() {
                assert(t[i] == p[i]);
            }
        }
        assert(t.last() == digit_char((n % 10) as int));
        assert(digits_value(t) == digits_value(p) * 10 + digit_value(t.last()));
        assert(n == (n / 10) * 10 + n % 10);
    }
}

/// Reading back a decimal spelling gives the number spelled, for every
/// number an `i32` holds.
pub proof fn lemma_decimal_parse_round_trip(n: nat)
    requires
        n <= 0x7fff_ffff,
    ensures
        parse_i32_text(decimal_text(n)) == Some(n as i32),
{
    lemma_decimal_digits(n);
    let t = decimal_text(n);
    assert(is_digit(t[0]));
}

} // verus!

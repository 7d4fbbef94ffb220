use vstd::prelude::*;
use vstd::std_specs::iter::IteratorSpec;

verus! {

/// Collects the characters of `s` into a vector.
pub fn chars_of(s: &str) -> (v: Vec<char>)
    ensures
        v@ == s@,
{
    let mut v: Vec<char> = Vec::new();
    for c in it: s.chars()
        invariant
            v@ == it.seq().take(it.index() as int),
            it.seq() == s@,
    {
        v.push(c);
    }
    v
}

/// An owned copy of `s`.
pub fn owned(s: &str) -> (r: String)
    ensures
        r@ == s@,
{
    String::from_str(s)
}

/// The character of a decimal digit.
pub open spec fn digit_char(d: int) -> char {
    if d == 0 {
        '0'
    } else if d == 1 {
        '1'
    } else if d == 2 {
        '2'
    } else if d == 3 {
        '3'
    } else if d == 4 {
        '4'
    } else if d == 5 {
        '5'
    } else if d == 6 {
        '6'
    } else if d == 7 {
        '7'
    } else if d == 8 {
        '8'
    } else {
        '9'
    }
}

/// Decimal notation of `n`, without leading zeros.
pub open spec fn decimal(n: nat) -> Seq<char>
    decreases n,
{
    if n < 10 {
        seq![digit_char(n as int)]
    } else {
        decimal(n / 10).push(digit_char((n % 10) as int))
    }
}

/// Decimal notation of `n`, left-padded with zeros to at least `width` characters.
pub open spec fn zero_padded(n: nat, width: nat) -> Seq<char> {
    let digits = decimal(n);
    if digits.len() < width {
        Seq::new((width - digits.len()) as nat, |i: int| '0') + digits
    } else {
        digits
    }
}

fn digit_str(d: u64) -> (r: &'static str)
    requires
        d < 10,
    ensures
        r@ == seq![digit_char(d as int)],
{
    if d == 0 {
        proof { reveal_strlit("0"); }
        "0"
    } else if d == 1 {
        proof { reveal_strlit("1"); }
        "1"
    } else if d == 2 {
        proof { reveal_strlit("2"); }
        "2"
    } else if d == 3 {
        proof { reveal_strlit("3"); }
        "3"
    } else if d == 4 {
        proof { reveal_strlit("4"); }
        "4"
    } else if d == 5 {
        proof { reveal_strlit("5"); }
        "5"
    } else if d == 6 {
        proof { reveal_strlit("6"); }
        "6"
    } else if d == 7 {
        proof { reveal_strlit("7"); }
        "7"
    } else if d == 8 {
        proof { reveal_strlit("8"); }
        "8"
    } else {
        proof { reveal_strlit("9"); }
        "9"
    }
}

/// Appends the decimal notation of `n`.
pub fn push_decimal(s: &mut String, n: u64)
    ensures
        final(s)@ == old(s)@ + decimal(n as nat),
    decreases n,
{
    if n >= 10 {
        push_decimal(s, n / 10);
    }
    s.append(digit_str(n % 10));
    assert(final(s)@ == old(s)@ + decimal(n as nat)) by {
        if n >= 10 {
            assert(decimal(n as nat) == decimal((n / 10) as nat).push(digit_char((n % 10) as int)));
        }
    }
}

/// Appends the decimal notation of `n`, zero-padded to `width` characters.
pub fn push_padded(s: &mut String, n: u64, width: u64)
    requires
        width <= 20,
    ensures
        final(s)@ == old(s)@ + zero_padded(n as nat, width as nat),
{
    let ghost start = s@;
    let len = decimal_len(n);
    let mut k = len;
    proof {
        reveal_strlit("0");
        assert("0"@ =~= seq!['0']);
    }
    while k < width
        invariant
            len as nat == decimal(n as nat).len(),
            len <= k,
            k <= width || k == len,
            "0"@ == seq!['0'],
            s@ == start + Seq::new((k - len) as nat, |i: int| '0'),
        decreases width - k,
    {
        let ghost prev = s@;
        s.append("0");
        k = k + 1;
        assert(s@ =~= prev + seq!['0']);
        assert(s@ =~= start + Seq::new((k - len) as nat, |i: int| '0'));
    }
    let ghost before = s@;
    push_decimal(s, n);
    assert(s@ == before + decimal(n as nat));
    if len < width {
        assert(k == width);
    } else {
        assert(k == len);
        assert(Seq::new((k - len) as nat, |i: int| '0') =~= Seq::<char>::empty());
    }
    assert(s@ =~= start + zero_padded(n as nat, width as nat));
}

/// Number of digits of the decimal notation of `n`.
pub fn decimal_len(n: u64) -> (r: u64)
    ensures
        r as nat == decimal(n as nat).len(),
        1 <= r <= 20,
    decreases n,
{
    if n >= 10 {
        let r = decimal_len(n / 10);
        proof {
            assert(r <= 19) by {
                lemma_decimal_len_bound((n / 10) as nat);
            }
        }
        r + 1
    } else {
        1
    }
}

proof fn lemma_decimal_len_bound(n: nat)
    requires
        n <= u64::MAX / 10,
    ensures
        decimal(n).len() <= 19,
    decreases n,
{
    reveal_with_fuel(pow10, 20);
    lemma_decimal_len_small(n, 18);
}

proof fn lemma_decimal_len_small(n: nat, k: nat)
    requires
        n < pow10(k + 1),
    ensures
        decimal(n).len() <= k + 1,
    decreases n,
{
    if n >= 10 {
        if k == 0 {
            assert(pow10(1) == 10 * pow10(0));
        } else {
            assert(pow10(k + 1) == 10 * pow10(k));
            lemma_decimal_len_small(n / 10, (k - 1) as nat);
        }
    }
}

pub open spec fn pow10(k: nat) -> nat
    decreases k,
{
    if k == 0 {
        1
    } else {
        10 * pow10((k - 1) as nat)
    }
}

/// The pieces of `s` between occurrences of `sep`, as `str::split` yields them: always one
/// more piece than there are separators.
pub open spec fn split_on(s: Seq<char>, sep: char) -> Seq<Seq<char>>
    decreases s.len(),
{
    if s.len() == 0 {
        seq![Seq::<char>::empty()]
    } else {
        let init = split_on(s.drop_last(), sep);
        if s.last() == sep {
            init.push(Seq::<char>::empty())
        } else {
            init.update(init.len() - 1, init.last().push(s.last()))
        }
    }
}

/// Splitting always yields at least one piece.
pub proof fn lemma_split_nonempty(s: Seq<char>, sep: char)
    ensures
        split_on(s, sep).len() >= 1,
    decreases s.len(),
{
    if s.len() > 0 {
        lemma_split_nonempty(s.drop_last(), sep);
    }
}

/// The pieces of `c` between occurrences of `sep`.
pub fn split_chars(c: &Vec<char>, sep: char) -> (r: Vec<Vec<char>>)
    ensures
        r.len() == split_on(c@, sep).len(),
        forall|i: int| 0 <= i < r.len() ==> (#[trigger] r[i])@ == split_on(c@, sep)[i],
{
    let mut pieces: Vec<Vec<char>> = Vec::new();
    let mut current: Vec<char> = Vec::new();
    let mut i: usize = 0;
    proof {
        assert(c@.subrange(0, 0) =~= Seq::<char>::empty());
    }
    while i < c.len()
        invariant
            i <= c.len(),
            pieces.len() + 1 == split_on(c@.subrange(0, i as int), sep).len(),
            forall|k: int|
                0 <= k < pieces.len() ==> (#[trigger] pieces[k])@ == split_on(
                    c@.subrange(0, i as int),
                    sep,
                )[k],
            current@ == split_on(c@.subrange(0, i as int), sep).last(),
        decreases c.len() - i,
    {
        proof {
            assert(c@.subrange(0, i + 1).drop_last() =~= c@.subrange(0, i as int));
            lemma_split_nonempty(c@.subrange(0, i as int), sep);
        }
        if c[i] == sep {
            pieces.push(current);
            current = Vec::new();
        } else {
            current.push(c[i]);
        }
        i = i + 1;
    }
    proof {
        assert(c@.subrange(0, c.len() as int) =~= c@);
    }
    pieces.push(current);
    pieces
}

/// Whether every character is an ASCII decimal digit.
pub open spec fn all_digits(t: Seq<char>) -> bool {
    forall|i: int| 0 <= i < t.len() ==> '0' <= #[trigger] t[i] <= '9'
}

/// The value of a string of decimal digits.
pub open spec fn digits_value(t: Seq<char>) -> int
    decreases t.len(),
{
    if t.len() == 0 {
        0
    } else {
        digits_value(t.drop_last()) * 10 + (t.last() as int - '0' as int)
    }
}

/// The digits of an unsigned number: `t` without one leading `+`.
pub open spec fn unsigned_body(t: Seq<char>) -> Seq<char> {
    if t.len() > 0 && t[0] == '+' {
        t.subrange(1, t.len() as int)
    } else {
        t
    }
}

/// What `str::parse` gives for an unsigned integer type whose largest value is `max`: the
/// value of a nonempty run of ASCII digits after an optional `+`, when it does not exceed
/// `max`.
pub open spec fn parsed_unsigned(t: Seq<char>, max: int) -> Option<int> {
    let d = unsigned_body(t);
    if d.len() > 0 && all_digits(d) && digits_value(d) <= max {
        Some(digits_value(d))
    } else {
        None
    }
}

/// Reads an unsigned decimal number no larger than `max`.
pub fn parse_unsigned(t: &Vec<char>, max: u64) -> (r: Option<u64>)
    ensures
        match r {
            Some(v) => parsed_unsigned(t@, max as int) == Some(v as int),
            None => parsed_unsigned(t@, max as int) is None,
        },
{
    let start: usize = if t.len() > 0 && t[0] == '+' {
        1
    } else {
        0
    };
    let ghost body = unsigned_body(t@);
    assert(body =~= t@.subrange(start as int, t.len() as int));
    if start == t.len() {
        return None;
    }
    let mut value: u128 = 0;
    let mut over = false;
    let mut i: usize = start;
    proof {
        assert(t@.subrange(start as int, start as int) =~= Seq::<char>::empty());
    }
    while i < t.len()
        invariant
            start <= i <= t.len(),
            body == unsigned_body(t@),
            body =~= t@.subrange(start as int, t.len() as int),
            all_digits(t@.subrange(start as int, i as int)),
            !over ==> value == digits_value(t@.subrange(start as int, i as int)) && value <= max,
            over ==> digits_value(t@.subrange(start as int, i as int)) > max,
        decreases t.len() - i,
    {
        let c = t[i];
        if !('0' <= c && c <= '9') {
            assert(body[i - start] == c);
            assert(!all_digits(body));
            return None;
        }
        let ghost prev = t@.subrange(start as int, i as int);
        let ghost next = t@.subrange(start as int, i + 1);
        assert(next.drop_last() =~= prev);
        assert(next.last() == c);
        assert(all_digits(next)) by {
            assert forall|k: int| 0 <= k < next.len() implies '0' <= #[trigger] next[k] <= '9' by {
                if k < prev.len() {
                    assert(next[k] == prev[k]);
                }
            }
        }
        let d = (c as u32 - '0' as u32) as u128;
        assert(d == c as int - '0' as int);
        if !over {
            value = value * 10 + d;
            if value > max as u128 {
                over = true;
            }
        }
        i = i + 1;
    }
    assert(t@.subrange(start as int, t.len() as int) =~= body);
    if over {
        None
    } else {
        Some(value as u64)
    }
}

/// Whether `c` is white space in the sense of Unicode's `White_Space` property, as
/// `char::is_whitespace` decides it.
pub open spec fn is_white(c: char) -> bool {
    ||| '\u{9}' <= c <= '\u{d}'
    ||| c == ' '
    ||| c == '\u{85}'
    ||| c == '\u{a0}'
    ||| c == '\u{1680}'
    ||| '\u{2000}' <= c <= '\u{200a}'
    ||| c == '\u{2028}'
    ||| c == '\u{2029}'
    ||| c == '\u{202f}'
    ||| c == '\u{205f}'
    ||| c == '\u{3000}'
}

/// Whether `c` is white space.
pub fn white(c: char) -> (r: bool)
    ensures
        r == is_white(c),
{
    ('\u{9}' <= c && c <= '\u{d}') || c == ' ' || c == '\u{85}' || c == '\u{a0}' || c
        == '\u{1680}' || ('\u{2000}' <= c && c <= '\u{200a}') || c == '\u{2028}' || c
        == '\u{2029}' || c == '\u{202f}' || c == '\u{205f}' || c == '\u{3000}'
}

/// The index of the first character at or after `i` that is not white space, or the length
/// of `s` when there is none.
pub open spec fn first_visible(s: Seq<char>, i: int) -> int
    decreases s.len() - i,
{
    if 0 <= i < s.len() && is_white(s[i]) {
        first_visible(s, i + 1)
    } else {
        i
    }
}

/// The words of `s`: its maximal runs of characters that are not white space, in order, as
/// `str::split_whitespace` yields them.
pub open spec fn words(s: Seq<char>) -> Seq<Seq<char>>
    decreases s.len(),
{
    if s.len() == 0 {
        Seq::<Seq<char>>::empty()
    } else {
        let w = words(s.drop_last());
        let c = s.last();
        if is_white(c) {
            w
        } else if s.len() >= 2 && !is_white(s[s.len() - 2]) && w.len() > 0 {
            w.update(w.len() - 1, w.last().push(c))
        } else {
            w.push(seq![c])
        }
    }
}

/// The words of `s`.
pub fn split_words(s: &Vec<char>) -> (r: Vec<Vec<char>>)
    ensures
        r.len() == words(s@).len(),
        forall|i: int| 0 <= i < r.len() ==> (#[trigger] r[i])@ == words(s@)[i],
{
    let mut done: Vec<Vec<char>> = Vec::new();
    let mut current: Vec<char> = Vec::new();
    let mut in_word = false;
    let mut i: usize = 0;
    proof {
        assert(s@.subrange(0, 0) =~= Seq::<char>::empty());
    }
    while i < s.len()
        invariant
            i <= s.len(),
            in_word <==> (i > 0 && !is_white(s@[i - 1])),
            done.len() + (if in_word { 1int } else { 0int }) == words(s@.subrange(0, i as int)).len(),
            forall|k: int|
                0 <= k < done.len() ==> (#[trigger] done[k])@ == words(s@.subrange(0, i as int))[k],
            in_word ==> current@ == words(s@.subrange(0, i as int)).last(),
        decreases s.len() - i,
    {
        let ghost prefix = s@.subrange(0, i as int);
        let ghost next = s@.subrange(0, i + 1);
        proof {
            assert(next.drop_last() =~= prefix);
            assert(next.last() == s@[i as int]);
            if i > 0 {
                assert(next[next.len() - 2] == s@[i - 1]);
            }
        }
        let c = s[i];
        if white(c) {
            if in_word {
                done.push(current);
                current = Vec::new();
                in_word = false;
            }
        } else if in_word {
            current.push(c);
        } else {
            current = Vec::new();
            current.push(c);
            in_word = true;
            assert(current@ =~= seq![c]);
        }
        i = i + 1;
    }
    proof {
        assert(s@.subrange(0, s.len() as int) =~= s@);
    }
    if in_word {
        done.push(current);
    }
    done
}

/// Whether the first character of `s` that is not white space is an ASCII decimal digit.
pub open spec fn starts_with_digit(s: Seq<char>) -> bool {
    let k = first_visible(s, 0);
    k < s.len() && '0' <= s[k] <= '9'
}

/// Whether the first character of `s` that is not white space is an ASCII decimal digit.
pub fn visible_digit_first(s: &Vec<char>) -> (r: bool)
    ensures
        r == starts_with_digit(s@),
{
    let mut i: usize = 0;
    while i < s.len() && white(s[i])
        invariant
            i <= s.len(),
            first_visible(s@, i as int) == first_visible(s@, 0),
        decreases s.len() - i,
    {
        i = i + 1;
    }
    i < s.len() && '0' <= s[i] && s[i] <= '9'
}


/// The digit character of a value below ten stands for that value.
proof fn lemma_digit_char_value(k: int)
    requires
        0 <= k < 10,
    ensures
        '0' <= digit_char(k) <= '9',
        digit_char(k) as int - '0' as int == k,
{
}

/// The decimal notation of `n` is a nonempty run of digits whose value is `n`.
pub proof fn lemma_decimal_reads_back(n: nat)
    ensures
        decimal(n).len() >= 1,
        all_digits(decimal(n)),
        digits_value(decimal(n)) == n,
    decreases n,
{
    if n < 10 {
        lemma_digit_char_value(n as int);
        let d = decimal(n);
        assert(d.drop_last() =~= Seq::<char>::empty());
        assert(digits_value(d.drop_last()) == 0);
        assert(d.last() == digit_char(n as int));
        assert(digits_value(d) == digits_value(d.drop_last()) * 10 + (d.last() as int - '0' as int));
    } else {
        lemma_decimal_reads_back(n / 10);
        lemma_digit_char_value((n % 10) as int);
        let d = decimal(n);
        assert(d.drop_last() =~= decimal(n / 10));
        assert(n == (n / 10) * 10 + n % 10);
        assert(d.last() == digit_char((n % 10) as int));
        assert(digits_value(d) == digits_value(d.drop_last()) * 10 + (d.last() as int - '0' as int));
        assert forall|i: int| 0 <= i < d.len() implies '0' <= #[trigger] d[i] <= '9' by {
            if i < d.len() - 1 {
                assert(d[i] == decimal(n / 10)[i]);
            }
        }
    }
}

/// Zeros put in front of a run of digits leave its value unchanged.
proof fn lemma_leading_zeros_value(z: Seq<char>, d: Seq<char>)
    requires
        forall|i: int| 0 <= i < z.len() ==> z[i] == '0',
    ensures
        digits_value(z + d) == digits_value(d),
    decreases z.len() + d.len(),
{
    if d.len() == 0 {
        assert(z + d =~= z);
        if z.len() > 0 {
            assert(z.drop_last() + d =~= z.drop_last());
            lemma_leading_zeros_value(z.drop_last(), d);
        }
    } else {
        assert((z + d).drop_last() =~= z + d.drop_last());
        lemma_leading_zeros_value(z, d.drop_last());
    }
}

/// Below 1000, the three-wide zero-padded notation of `n` is three digits whose value is `n`.
pub proof fn lemma_three_digits_read_back(n: nat)
    requires
        n < 1000,
    ensures
        zero_padded(n, 3).len() == 3,
        all_digits(zero_padded(n, 3)),
        digits_value(zero_padded(n, 3)) == n,
{
    reveal_with_fuel(pow10, 4);
    lemma_decimal_len_small(n, 2);
    lemma_decimal_reads_back(n);
    let d = decimal(n);
    if d.len() < 3 {
        let z = Seq::new((3 - d.len()) as nat, |i: int| '0');
        lemma_leading_zeros_value(z, d);
        let p = z + d;
        assert forall|i: int| 0 <= i < p.len() implies '0' <= #[trigger] p[i] <= '9' by {
            if i >= z.len() {
                assert(p[i] == d[i - z.len()]);
            }
        }
    }
}

} // verus!

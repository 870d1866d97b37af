//! Operations on text and on sequences that the rest of the crate is stated
//! with: splitting, prefixes, ASCII case, decimal numerals and lexicographic
//! order.
use vstd::prelude::*;
use vstd::string::StringExecFns;

verus! {

// ---------------------------------------------------------------------------
// Characters of a string
// ---------------------------------------------------------------------------

/// The characters of `s`, in order.
pub fn characters(s: &str) -> (r: Vec<char>)
    ensures
        r@ == s@,
{
    let mut v: Vec<char> = Vec::new();
    for c in it: s.chars()
        invariant
            v@ == s@.take(it.index() as int),
            it.seq() == s@,
    {
        assert(s@.take(it.index() + 1) == s@.take(it.index() as int).push(s@[it.index() as int]));
        v.push(c);
    }
    v
}

/// The texts of `v`.
pub open spec fn texts(v: Seq<String>) -> Seq<Seq<char>> {
    Seq::new(v.len(), |i: int| v[i]@)
}

/// Whether `a` and `b` are the same text.
pub fn same_text(a: &str, b: &str) -> (r: bool)
    ensures
        r == (a@ == b@),
{
    let x = a.as_bytes();
    let y = b.as_bytes();
    proof {
        vstd::utf8::encode_utf8_decode_utf8(a@);
        vstd::utf8::encode_utf8_decode_utf8(b@);
    }
    same_bytes(x, y)
}

/// Whether `a` and `b` hold the same bytes.
pub fn same_bytes(a: &[u8], b: &[u8]) -> (r: bool)
    ensures
        r == (a@ == b@),
{
    if a.len() != b.len() {
        return false;
    }
    let mut i: usize = 0;
    while i < a.len()
        invariant
            i <= a@.len() == b@.len(),
            forall|j: int| 0 <= j < i ==> a@[j] == b@[j],
        decreases a@.len() - i,
    {
        if a[i] != b[i] {
            return false;
        }
        i = i + 1;
    }
    assert(a@ =~= b@);
    true
}

// ---------------------------------------------------------------------------
// Splitting and prefixes
// ---------------------------------------------------------------------------

/// The position of the first `sep` in `s`, or `s.len()` where there is none.
pub open spec fn first_index(s: Seq<char>, sep: char) -> int
    decreases s.len(),
{
    if s.len() == 0 {
        0
    } else if s[0] == sep {
        0
    } else {
        1 + first_index(s.skip(1), sep)
    }
}

/// `s` cut at its first `sep`: what stands before it and what stands after it.
pub open spec fn cut_once(s: Seq<char>, sep: char) -> Option<(Seq<char>, Seq<char>)> {
    let i = first_index(s, sep);
    if i < s.len() {
        Some((s.take(i), s.skip(i + 1)))
    } else {
        None
    }
}

/// `first_index` is the only position with no `sep` before it that is either
/// the end or holds `sep`.
pub proof fn lemma_first_index(s: Seq<char>, sep: char)
    ensures
        0 <= first_index(s, sep) <= s.len(),
        forall|k: int| 0 <= k < first_index(s, sep) ==> s[k] != sep,
        first_index(s, sep) < s.len() ==> s[first_index(s, sep)] == sep,
        s.contains(sep) <==> first_index(s, sep) < s.len(),
    decreases s.len(),
{
    if s.len() > 0 && s[0] != sep {
        let t = s.skip(1);
        lemma_first_index(t, sep);
        assert(forall|k: int| 1 <= k < s.len() ==> s[k] == t[k - 1]);
        if s.contains(sep) {
            let k = choose|k: int| 0 <= k < s.len() && s[k] == sep;
            assert(t[k - 1] == sep);
        }
        if first_index(s, sep) < s.len() {
            assert(s[first_index(s, sep)] == t[first_index(t, sep)]);
        }
    } else if s.len() > 0 {
        assert(s[0] == sep);
    }
}

/// Text without `sep`, then `sep`, then anything, is cut exactly there.
pub proof fn lemma_cut_once_at(head: Seq<char>, sep: char, tail: Seq<char>)
    requires
        !head.contains(sep),
    ensures
        cut_once(head + seq![sep] + tail, sep) == Some((head, tail)),
{
    let s = head + seq![sep] + tail;
    lemma_first_index(s, sep);
    let i = first_index(s, sep);
    assert(s[head.len() as int] == sep);
    assert(s.contains(sep));
    if i < head.len() {
        assert(head[i] == s[i]);
    }
    assert(i == head.len());
    assert(s.take(i) =~= head);
    assert(s.skip(i + 1) =~= tail);
}

/// Text without `sep` is not cut.
pub proof fn lemma_cut_once_none(s: Seq<char>, sep: char)
    requires
        !s.contains(sep),
    ensures
        cut_once(s, sep) is None,
{
    lemma_first_index(s, sep);
}

/// Cuts `s` at its first `sep`.
pub fn split_once<'a>(s: &'a str, sep: char) -> (r: Option<(&'a str, &'a str)>)
    ensures
        match r {
            Some((head, tail)) => cut_once(s@, sep) == Some((head@, tail@)),
            None => cut_once(s@, sep) is None,
        },
{
    let chars = characters(s);
    let n = chars.len();
    let mut i: usize = 0;
    while i < n
        invariant
            i <= n == chars@.len(),
            chars@ == s@,
            forall|k: int| 0 <= k < i ==> s@[k] != sep,
        decreases n - i,
    {
        if chars[i] == sep {
            proof {
                lemma_first_index(s@, sep);
            }
            let head = s.substring_char(0, i);
            let tail = s.substring_char(i + 1, n);
            assert(head@ =~= s@.take(i as int));
            assert(tail@ =~= s@.skip(i + 1));
            return Some((head, tail));
        }
        i = i + 1;
    }
    proof {
        lemma_first_index(s@, sep);
    }
    None
}

/// What follows `prefix` in `s`, where `s` begins with it.
pub fn strip_prefix<'a>(s: &'a str, prefix: &str) -> (r: Option<&'a str>)
    ensures
        match r {
            Some(rest) => s@ == prefix@ + rest@,
            None => !prefix@.is_prefix_of(s@),
        },
{
    let a = characters(s);
    let b = characters(prefix);
    if a.len() < b.len() {
        return None;
    }
    let mut i: usize = 0;
    while i < b.len()
        invariant
            i <= b@.len() <= a@.len(),
            a@ == s@,
            b@ == prefix@,
            forall|k: int| 0 <= k < i ==> a@[k] == b@[k],
        decreases b@.len() - i,
    {
        if a[i] != b[i] {
            assert(s@.subrange(0, prefix@.len() as int)[i as int] != prefix@[i as int]);
            return None;
        }
        i = i + 1;
    }
    let rest = s.substring_char(b.len(), a.len());
    assert(s@ =~= prefix@ + rest@);
    Some(rest)
}

/// Law: a text is cut at the first place where the separator stands, which alone is left
/// out, and not at all where it does not stand; what follows a prefix is all the rest.
pub proof fn law_where_a_text_is_cut<'a>(
    s: &'a str,
    sep: char,
    cut: Option<(&'a str, &'a str)>,
    prefix: &str,
    rest: Option<&'a str>,
)
    requires
        call_ensures(split_once, (s, sep), cut),
        call_ensures(strip_prefix, (s, prefix), rest),
    ensures
        match cut {
            Some((head, tail)) => s@ == head@ + seq![sep] + tail@ && !head@.contains(sep),
            None => !s@.contains(sep),
        },
        match rest {
            Some(r) => s@ == prefix@ + r@,
            None => s@.len() < prefix@.len() || s@.take(prefix@.len() as int) != prefix@,
        },
{
    lemma_first_index(s@, sep);
    if let Some((head, tail)) = cut {
        let i = first_index(s@, sep);
        assert(s@ =~= s@.take(i) + seq![sep] + s@.skip(i + 1));
        if head@.contains(sep) {
            let k = choose|k: int| 0 <= k < head@.len() && head@[k] == sep;
            assert(s@[k] == sep);
        }
    }
}

// ---------------------------------------------------------------------------
// ASCII case
// ---------------------------------------------------------------------------

/// `c` with an ASCII capital replaced by its small letter.
pub open spec fn ascii_lower(c: char) -> char {
    if 'A' <= c && c <= 'Z' {
        (c as int + 32) as char
    } else {
        c
    }
}

/// `s` with every ASCII capital replaced by its small letter.
pub open spec fn ascii_lowercase(s: Seq<char>) -> Seq<char> {
    Seq::new(s.len(), |i: int| ascii_lower(s[i]))
}

fn lower_char(c: char) -> (r: char)
    ensures
        r == ascii_lower(c),
{
    match c {
        'A' => 'a',
        'B' => 'b',
        'C' => 'c',
        'D' => 'd',
        'E' => 'e',
        'F' => 'f',
        'G' => 'g',
        'H' => 'h',
        'I' => 'i',
        'J' => 'j',
        'K' => 'k',
        'L' => 'l',
        'M' => 'm',
        'N' => 'n',
        'O' => 'o',
        'P' => 'p',
        'Q' => 'q',
        'R' => 'r',
        'S' => 's',
        'T' => 't',
        'U' => 'u',
        'V' => 'v',
        'W' => 'w',
        'X' => 'x',
        'Y' => 'y',
        'Z' => 'z',
        _ => c,
    }
}

/// Whether `s`, with its ASCII capitals made small, is `word`.
pub fn lowercase_is(s: &str, word: &str) -> (r: bool)
    ensures
        r == (ascii_lowercase(s@) == word@),
{
    let a = characters(s);
    let b = characters(word);
    if a.len() != b.len() {
        assert(ascii_lowercase(s@).len() != word@.len());
        return false;
    }
    let mut i: usize = 0;
    while i < a.len()
        invariant
            i <= a@.len() == b@.len(),
            a@ == s@,
            b@ == word@,
            forall|k: int| 0 <= k < i ==> ascii_lower(a@[k]) == b@[k],
        decreases a@.len() - i,
    {
        if lower_char(a[i]) != b[i] {
            assert(ascii_lowercase(s@)[i as int] != word@[i as int]);
            return false;
        }
        i = i + 1;
    }
    assert(ascii_lowercase(s@) =~= word@);
    true
}

/// Law: only the 26 ASCII capitals have a small letter, 32 places on; everything else
/// stays as it is, and a text is compared character by character.
pub proof fn law_case_of_letters(s: &str, word: &str, r: bool)
    requires
        call_ensures(lowercase_is, (s, word), r),
    ensures
        r <==> s@.len() == word@.len() && forall|i: int|
            0 <= i < s@.len() ==> (#[trigger] word@[i] as int) == if 'A' <= s@[i] <= 'Z' {
                s@[i] as int + 32
            } else {
                s@[i] as int
            },
        r == (ascii_lowercase(s@) == word@),
{
    let small = ascii_lowercase(s@);
    assert(small.len() == s@.len());
    if r {
        assert forall|i: int| 0 <= i < s@.len() implies (#[trigger] word@[i] as int) == if 'A'
            <= s@[i] <= 'Z' {
            s@[i] as int + 32
        } else {
            s@[i] as int
        } by {
            assert(small[i] == word@[i]);
        }
    }
    if s@.len() == word@.len() && forall|i: int|
        0 <= i < s@.len() ==> (#[trigger] word@[i] as int) == if 'A' <= s@[i] <= 'Z' {
            s@[i] as int + 32
        } else {
            s@[i] as int
        } {
        assert forall|i: int| 0 <= i < s@.len() implies small[i] == word@[i] by {
            assert(word@[i] as int == small[i] as int);
        }
        assert(small =~= word@);
    }
}

// ---------------------------------------------------------------------------
// Decimal numerals
// ---------------------------------------------------------------------------

/// The decimal digit for `d`, for `d` below ten.
pub open spec fn digit(d: int) -> char {
    (48 + d) as char
}

/// `n` in decimal, without leading zeros.
pub open spec fn decimal(n: nat) -> Seq<char>
    decreases n,
{
    if n < 10 {
        seq![digit(n as int)]
    } else {
        decimal(n / 10).push(digit((n % 10) as int))
    }
}

fn digit_text(d: u64) -> (r: &'static str)
    requires
        d < 10,
    ensures
        r@ == seq![digit(d as int)],
{
    proof {
        reveal_strlit("0");
        reveal_strlit("1");
        reveal_strlit("2");
        reveal_strlit("3");
        reveal_strlit("4");
        reveal_strlit("5");
        reveal_strlit("6");
        reveal_strlit("7");
        reveal_strlit("8");
        reveal_strlit("9");
    }
    match d {
        0 => "0",
        1 => "1",
        2 => "2",
        3 => "3",
        4 => "4",
        5 => "5",
        6 => "6",
        7 => "7",
        8 => "8",
        _ => "9",
    }
}

/// Writes `n` in decimal.
pub fn to_decimal(n: u64) -> (r: String)
    ensures
        r@ == decimal(n as nat),
    decreases n,
{
    if n < 10 {
        digit_text(n).to_owned()
    } else {
        let mut r = to_decimal(n / 10);
        let ghost head = r@;
        r.append(digit_text(n % 10));
        assert(r@ =~= head.push(digit((n % 10) as int)));
        r
    }
}

/// The number that a text of decimal digits writes.
pub open spec fn numeral_value(s: Seq<char>) -> int
    decreases s.len(),
{
    if s.len() == 0 {
        0
    } else {
        10 * numeral_value(s.drop_last()) + (s.last() as int - '0' as int)
    }
}

/// Law: the decimal form of a number is made of digits, begins with a zero only if
/// it is that of zero, and writes that number.
pub proof fn law_decimal_writes_the_number(n: nat)
    ensures
        numeral_value(decimal(n)) == n,
        decimal(n).len() > 0,
        forall|i: int| 0 <= i < decimal(n).len() ==> '0' <= #[trigger] decimal(n)[i] <= '9',
        n > 0 ==> decimal(n)[0] != '0',
        n == 0 ==> decimal(n).len() == 1,
    decreases n,
{
    reveal_with_fuel(numeral_value, 2);
    let s = decimal(n);
    if n >= 10 {
        law_decimal_writes_the_number(n / 10);
        assert(s.drop_last() =~= decimal(n / 10));
    } else {
        assert(s.drop_last() =~= Seq::empty());
    }
}

/// Law: distinct numbers have distinct decimal forms.
pub proof fn law_decimal_tells_numbers_apart(a: nat, b: nat)
    requires
        decimal(a) == decimal(b),
    ensures
        a == b,
{
    law_decimal_writes_the_number(a);
    law_decimal_writes_the_number(b);
}

/// Law: a number is written as a text of digits that reads back as that number.
pub proof fn law_number_reads_back(n: u64, r: String)
    requires
        call_ensures(to_decimal, (n,), r),
    ensures
        numeral_value(r@) == n,
        r@.len() > 0,
        forall|i: int| 0 <= i < r@.len() ==> '0' <= #[trigger] r@[i] <= '9',
        r@.len() > 1 ==> r@[0] != '0',
{
    law_decimal_writes_the_number(n as nat);
}

/// Whether `part` stands in `text` at `at`, in full.
pub open spec fn stands_at(text: Seq<char>, at: nat, part: Seq<char>) -> bool {
    at + part.len() <= text.len() && text.skip(at as int).take(part.len() as int) == part
}

/// What is put between two texts stands there.
pub proof fn lemma_stands_between(before: Seq<char>, part: Seq<char>, after: Seq<char>)
    ensures
        stands_at(before + part + after, 0, before),
        stands_at(before + part + after, before.len(), part),
        stands_at(before + part + after, before.len() + part.len(), after),
        stands_at(before + part, 0, before),
        stands_at(before + part, before.len(), part),
        stands_at(part + after, 0, part),
{
    let whole = before + part + after;
    assert(whole.skip(0).take(before.len() as int) =~= before);
    assert(whole.skip((before.len() + part.len()) as int).take(after.len() as int) =~= after);
    assert((before + part).skip(0).take(before.len() as int) =~= before);
    assert((before + part + after).skip(before.len() as int).take(part.len() as int) =~= part);
    assert((before + part).skip(before.len() as int).take(part.len() as int) =~= part);
    assert((part + after).skip(0).take(part.len() as int) =~= part);
}

// ---------------------------------------------------------------------------
// Lexicographic order
// ---------------------------------------------------------------------------

/// `a` comes before `b` in the lexicographic order.
pub open spec fn lex_less(a: Seq<int>, b: Seq<int>) -> bool
    decreases a.len(),
{
    if b.len() == 0 {
        false
    } else if a.len() == 0 {
        true
    } else {
        a[0] < b[0] || (a[0] == b[0] && lex_less(a.skip(1), b.skip(1)))
    }
}

/// Bytes as the numbers that order them.
pub open spec fn byte_ranks(s: Seq<u8>) -> Seq<int> {
    Seq::new(s.len(), |i: int| s[i] as int)
}

/// Characters as the numbers that order them.
pub open spec fn char_ranks(s: Seq<char>) -> Seq<int> {
    Seq::new(s.len(), |i: int| s[i] as int)
}

/// Distinct byte sequences have distinct ranks.
pub proof fn lemma_byte_ranks_injective(a: Seq<u8>, b: Seq<u8>)
    ensures
        byte_ranks(a) == byte_ranks(b) <==> a == b,
{
    if byte_ranks(a) == byte_ranks(b) {
        assert(a.len() == byte_ranks(a).len());
        assert forall|i: int| 0 <= i < a.len() implies a[i] == b[i] by {
            assert(byte_ranks(a)[i] == byte_ranks(b)[i]);
        }
        assert(a =~= b);
    }
}

/// Distinct texts have distinct ranks.
pub proof fn lemma_char_ranks_injective(a: Seq<char>, b: Seq<char>)
    ensures
        char_ranks(a) == char_ranks(b) <==> a == b,
{
    if char_ranks(a) == char_ranks(b) {
        assert(a.len() == char_ranks(a).len());
        assert forall|i: int| 0 <= i < a.len() implies a[i] == b[i] by {
            assert(char_ranks(a)[i] == char_ranks(b)[i]);
        }
        assert(a =~= b);
    }
}

/// Of two sequences exactly one comes first, unless they are the same.
pub proof fn lemma_lex_trichotomy(a: Seq<int>, b: Seq<int>)
    ensures
        !(lex_less(a, b) && lex_less(b, a)),
        a == b ==> !lex_less(a, b),
        a != b ==> lex_less(a, b) || lex_less(b, a),
    decreases a.len(),
{
    if a.len() > 0 && b.len() > 0 {
        lemma_lex_trichotomy(a.skip(1), b.skip(1));
        if a[0] == b[0] && a.skip(1) == b.skip(1) {
            assert(a.len() == b.len());
            assert forall|i: int| 0 <= i < a.len() implies a[i] == b[i] by {
                if i > 0 {
                    assert(a.skip(1)[i - 1] == b.skip(1)[i - 1]);
                }
            }
            assert(a =~= b);
        }
    } else if a.len() == 0 && b.len() == 0 {
        assert(a =~= b);
    }
}

/// The lexicographic order is transitive.
pub proof fn lemma_lex_transitive(a: Seq<int>, b: Seq<int>, c: Seq<int>)
    requires
        lex_less(a, b),
        lex_less(b, c),
    ensures
        lex_less(a, c),
    decreases a.len(),
{
    if a.len() > 0 && b.len() > 0 && c.len() > 0 {
        if a[0] == b[0] && b[0] == c[0] {
            lemma_lex_transitive(a.skip(1), b.skip(1), c.skip(1));
        }
    }
}

/// Two sequences that agree up to `k` are ordered by what follows.
pub proof fn lemma_lex_common_prefix(a: Seq<int>, b: Seq<int>, k: int)
    requires
        0 <= k <= a.len(),
        k <= b.len(),
        a.take(k) == b.take(k),
    ensures
        lex_less(a, b) == lex_less(a.skip(k), b.skip(k)),
    decreases k,
{
    if k == 0 {
        assert(a.skip(0) =~= a);
        assert(b.skip(0) =~= b);
    } else {
        assert(a[0] == a.take(k)[0]);
        assert(b[0] == b.take(k)[0]);
        assert(a.skip(1).take(k - 1) =~= a.take(k).skip(1));
        assert(b.skip(1).take(k - 1) =~= b.take(k).skip(1));
        lemma_lex_common_prefix(a.skip(1), b.skip(1), k - 1);
        assert(a.skip(1).skip(k - 1) =~= a.skip(k));
        assert(b.skip(1).skip(k - 1) =~= b.skip(k));
    }
}

/// Law: the lexicographic order is decided where two sequences first differ: by the
/// smaller number there, or by the end of the shorter one.
pub proof fn law_first_difference_orders(a: Seq<int>, b: Seq<int>)
    ensures
        lex_less(a, b) <==> exists|i: int|
            0 <= i <= a.len() && i < b.len() && #[trigger] a.take(i) == b.take(i) && (i == a.len()
                || a[i] < b[i]),
    decreases a.len(),
{
    if lex_less(a, b) {
        if a.len() == 0 || a[0] < b[0] {
            assert(a.take(0) =~= b.take(0));
        } else {
            law_first_difference_orders(a.skip(1), b.skip(1));
            let x = a.skip(1);
            let y = b.skip(1);
            let i = choose|i: int|
                0 <= i <= x.len() && i < y.len() && #[trigger] x.take(i) == y.take(i) && (i
                    == x.len() || x[i] < y[i]);
            assert(a.take(i + 1) =~= seq![a[0]] + x.take(i));
            assert(b.take(i + 1) =~= seq![b[0]] + y.take(i));
        }
    }
    if exists|i: int|
        0 <= i <= a.len() && i < b.len() && #[trigger] a.take(i) == b.take(i) && (i == a.len()
            || a[i] < b[i]) {
        let i = choose|i: int|
            0 <= i <= a.len() && i < b.len() && #[trigger] a.take(i) == b.take(i) && (i == a.len()
                || a[i] < b[i]);
        lemma_lex_common_prefix(a, b, i);
        if i < a.len() {
            assert(a.skip(i)[0] == a[i]);
            assert(b.skip(i)[0] == b[i]);
        }
    }
}

/// Whether the text `a` comes before `b`, character by character.
pub fn text_less(a: &str, b: &str) -> (r: bool)
    ensures
        r == lex_less(char_ranks(a@), char_ranks(b@)),
{
    let x = characters(a);
    let y = characters(b);
    let ghost p = char_ranks(a@);
    let ghost q = char_ranks(b@);
    let mut i: usize = 0;
    while i < x.len() && i < y.len()
        invariant
            i <= x@.len(),
            i <= y@.len(),
            x@ == a@,
            y@ == b@,
            p == char_ranks(a@),
            q == char_ranks(b@),
            forall|k: int| 0 <= k < i ==> x@[k] == y@[k],
        decreases x@.len() - i,
    {
        if x[i] != y[i] {
            proof {
                assert(p.take(i as int) =~= q.take(i as int));
                lemma_lex_common_prefix(p, q, i as int);
                assert(p.skip(i as int)[0] == x@[i as int] as int);
                assert(q.skip(i as int)[0] == y@[i as int] as int);
            }
            return x[i] < y[i];
        }
        i = i + 1;
    }
    proof {
        assert(p.take(i as int) =~= q.take(i as int));
        lemma_lex_common_prefix(p, q, i as int);
    }
    i < y.len()
}

/// Law: how two texts compare. They are the same where they have as many characters and
/// the same one at each place, and the first comes before the second where it has the
/// smaller character at the first place where they differ, or ends there.
pub proof fn law_how_texts_compare(a: &str, b: &str, chars: Vec<char>, same: bool, less: bool)
    requires
        call_ensures(characters, (a,), chars),
        call_ensures(same_text, (a, b), same),
        call_ensures(text_less, (a, b), less),
    ensures
        chars@.len() == a@.len(),
        forall|i: int| 0 <= i < a@.len() ==> #[trigger] chars@[i] == a@[i],
        same <==> a@.len() == b@.len() && forall|i: int|
            0 <= i < a@.len() ==> #[trigger] a@[i] == b@[i],
        less <==> exists|i: int|
            0 <= i <= a@.len() && i < b@.len() && #[trigger] a@.take(i) == b@.take(i) && (i
                == a@.len() || a@[i] < b@[i]),
{
    if a@.len() == b@.len() && forall|i: int| 0 <= i < a@.len() ==> #[trigger] a@[i] == b@[i] {
        assert(a@ =~= b@);
    }
    let x = char_ranks(a@);
    let y = char_ranks(b@);
    law_first_difference_orders(x, y);
    assert forall|i: int| 0 <= i <= x.len() && i <= y.len() implies (#[trigger] a@.take(i)
        == b@.take(i)) == (x.take(i) == y.take(i)) by {
        assert(x.take(i) =~= char_ranks(a@.take(i)));
        assert(y.take(i) =~= char_ranks(b@.take(i)));
        lemma_char_ranks_injective(a@.take(i), b@.take(i));
    }
    if lex_less(x, y) {
        let i = choose|i: int|
            0 <= i <= x.len() && i < y.len() && #[trigger] x.take(i) == y.take(i) && (i == x.len()
                || x[i] < y[i]);
        assert(a@.take(i) == b@.take(i));
    }
    if exists|i: int|
        0 <= i <= a@.len() && i < b@.len() && #[trigger] a@.take(i) == b@.take(i) && (i == a@.len()
            || a@[i] < b@[i]) {
        let i = choose|i: int|
            0 <= i <= a@.len() && i < b@.len() && #[trigger] a@.take(i) == b@.take(i) && (i
                == a@.len() || a@[i] < b@[i]);
        assert(x.take(i) == y.take(i));
    }
}

/// Law: bytes are the same where there are as many and the same one at each place.
pub proof fn law_how_bytes_compare(a: &[u8], b: &[u8], same: bool)
    requires
        call_ensures(same_bytes, (a, b), same),
    ensures
        same <==> a@.len() == b@.len() && forall|i: int|
            0 <= i < a@.len() ==> #[trigger] a@[i] == b@[i],
{
    if a@.len() == b@.len() && forall|i: int| 0 <= i < a@.len() ==> #[trigger] a@[i] == b@[i] {
        assert(a@ =~= b@);
    }
}

} // verus!

//! Character-level helpers shared by the rest of the shell: conversions between
//! strings and character vectors, quote trimming, searching, whitespace
//! splitting, and decimal rendering and parsing.

use vstd::prelude::*;

verus! {

/// `String::push` appends one character to the end of the string.
pub assume_specification[ String::push ](s: &mut String, c: char)
    ensures
        final(s)@ == old(s)@.push(c),
;

/// The character sequences of a sequence of strings.
pub open spec fn views(v: Seq<String>) -> Seq<Seq<char>> {
    Seq::new(v.len(), |i: int| v[i]@)
}

/// The characters that count as white space: the Unicode `White_Space` set.
pub open spec fn is_whitespace(c: char) -> bool {
    let n = c as u32;
    (0x09 <= n <= 0x0d) || n == 0x20 || n == 0x85 || n == 0xa0 || n == 0x1680 || (0x2000 <= n
        <= 0x200a) || n == 0x2028 || n == 0x2029 || n == 0x202f || n == 0x205f || n == 0x3000
}

/// Tells whether `c` is white space.
pub fn char_is_whitespace(c: char) -> (b: bool)
    ensures
        b == is_whitespace(c),
{
    let n: u32 = c as u32;
    (0x09 <= n && n <= 0x0d) || n == 0x20 || n == 0x85 || n == 0xa0 || n == 0x1680 || (0x2000 <= n
        && n <= 0x200a) || n == 0x2028 || n == 0x2029 || n == 0x202f || n == 0x205f || n == 0x3000
}

/// The characters of `s` as a vector.
pub fn chars_of(s: &str) -> (v: Vec<char>)
    ensures
        v@ == s@,
{
    let mut v: Vec<char> = Vec::new();
    for c in it: s.chars()
        invariant
            v@ == it.seq().take(it.index() as int),
            it.seq() == s@,
    {
        v.push(c);
    }
    v
}

/// The string made of the characters `v[from..to]`.
pub fn string_of_range(v: &Vec<char>, from: usize, to: usize) -> (s: String)
    requires
        from <= to <= v.len(),
    ensures
        s@ == v@.subrange(from as int, to as int),
{
    let mut s = String::new();
    let mut i: usize = from;
    while i < to
        invariant
            from <= i <= to <= v.len(),
            s@ == v@.subrange(from as int, i as int),
        decreases to - i,
    {
        s.push(v[i]);
        i += 1;
    }
    s
}

/// The string made of the characters of `v`.
pub fn string_of(v: &Vec<char>) -> (s: String)
    ensures
        s@ == v@,
{
    let s = string_of_range(v, 0, v.len());
    assert(v@.subrange(0, v.len() as int) == v@);
    s
}

/// Tells whether two string slices hold the same characters.
pub fn str_eq(a: &str, b: &str) -> (r: bool)
    ensures
        r == (a@ == b@),
{
    let x = a.to_owned();
    let y = b.to_owned();
    x == y
}

/// Tells whether `a` comes before `b` in the order of a dictionary, given that
/// the two agree before position `i`: at the first position where they differ
/// `a` holds the smaller character, or `a` ends there and `b` goes on.
pub open spec fn precedes_from(a: Seq<char>, b: Seq<char>, i: int) -> bool
    decreases b.len() - i,
{
    if i < 0 || i >= b.len() {
        false
    } else if i >= a.len() {
        true
    } else if a[i] != b[i] {
        a[i] < b[i]
    } else {
        precedes_from(a, b, i + 1)
    }
}

/// Tells whether `a` comes before `b` in the order of a dictionary.
pub open spec fn precedes(a: Seq<char>, b: Seq<char>) -> bool {
    precedes_from(a, b, 0)
}

/// No string comes before itself.
pub proof fn lemma_precedes_irreflexive(a: Seq<char>, i: int)
    requires
        0 <= i,
    ensures
        !precedes_from(a, a, i),
    decreases a.len() - i,
{
    if i < a.len() {
        lemma_precedes_irreflexive(a, i + 1);
    }
}

/// What comes before a string comes before all that the string comes before.
pub proof fn lemma_precedes_transitive(a: Seq<char>, b: Seq<char>, c: Seq<char>, i: int)
    requires
        0 <= i,
        precedes_from(a, b, i),
        precedes_from(b, c, i),
    ensures
        precedes_from(a, c, i),
    decreases c.len() - i,
{
    if i < a.len() && i < b.len() && i < c.len() && a[i] == b[i] && b[i] == c[i] {
        lemma_precedes_transitive(a, b, c, i + 1);
    }
}

/// Of two strings that differ, one comes before the other.
pub proof fn lemma_precedes_total(a: Seq<char>, b: Seq<char>, i: int)
    requires
        0 <= i <= a.len(),
        i <= b.len(),
        forall|k: int| 0 <= k < i ==> a[k] == b[k],
        !precedes_from(a, b, i),
        !precedes_from(b, a, i),
    ensures
        a == b,
    decreases a.len() - i,
{
    if i < a.len() && i < b.len() {
        lemma_precedes_total(a, b, i + 1);
    } else {
        assert(a =~= b);
    }
}

/// Tells whether `a` comes before `b` in the order of a dictionary.
pub fn str_less(a: &str, b: &str) -> (r: bool)
    ensures
        r == precedes(a@, b@),
{
    let x = chars_of(a);
    let y = chars_of(b);
    let mut i: usize = 0;
    while i < x.len() && i < y.len()
        invariant
            i <= x.len(),
            i <= y.len(),
            x@ == a@,
            y@ == b@,
            precedes_from(a@, b@, i as int) == precedes(a@, b@),
        decreases x.len() - i,
    {
        if x[i] != y[i] {
            return x[i] < y[i];
        }
        i += 1;
    }
    i < y.len()
}

/// `word` without its outer quotes: when the word starts and ends with `"`, or
/// starts and ends with `'`, the first and the last character are removed.
pub open spec fn spec_trim(word: Seq<char>) -> Seq<char> {
    if word.len() >= 1 && ((word[0] == '"' && word.last() == '"') || (word[0] == '\''
        && word.last() == '\'')) {
        if word.len() == 1 {
            Seq::empty()
        } else {
            word.subrange(1, word.len() - 1)
        }
    } else {
        word
    }
}

/// Removes one pair of matching outer quotes from `word`, if it has one.
pub fn trim(word: &str) -> (r: String)
    ensures
        r@ == spec_trim(word@),
{
    let v = chars_of(word);
    let n = v.len();
    if n >= 1 && ((v[0] == '"' && v[n - 1] == '"') || (v[0] == '\'' && v[n - 1] == '\'')) {
        if n == 1 {
            String::new()
        } else {
            string_of_range(&v, 1, n - 1)
        }
    } else {
        string_of(&v)
    }
}

/// The first position at or after `from` where `s` holds `c`; the length of `s`
/// when there is none.
pub open spec fn index_from(s: Seq<char>, c: char, from: int) -> int
    decreases s.len() - from,
{
    if from >= s.len() {
        s.len() as int
    } else if s[from] == c {
        from
    } else {
        index_from(s, c, from + 1)
    }
}

/// The first position where `s` holds `c`; the length of `s` when there is none.
pub open spec fn index_of(s: Seq<char>, c: char) -> int {
    index_from(s, c, 0)
}

/// What `index_from` finds: nothing before it, and `c` at it unless it is the end.
pub proof fn lemma_index_from(s: Seq<char>, c: char, from: int)
    requires
        0 <= from <= s.len(),
    ensures
        from <= index_from(s, c, from) <= s.len(),
        forall|j: int| from <= j < index_from(s, c, from) ==> s[j] != c,
        index_from(s, c, from) < s.len() ==> s[index_from(s, c, from)] == c,
    decreases s.len() - from,
{
    if from < s.len() && s[from] != c {
        lemma_index_from(s, c, from + 1);
    }
}

/// Tells whether `s` holds `c` somewhere.
pub open spec fn has_char(s: Seq<char>, c: char) -> bool {
    index_of(s, c) < s.len()
}

/// The first position at or after `from` where `v` holds `c`, or `v.len()`.
pub fn find_from(v: &Vec<char>, c: char, from: usize) -> (r: usize)
    requires
        from <= v.len(),
    ensures
        r == index_from(v@, c, from as int),
        from <= r <= v.len(),
{
    let mut i: usize = from;
    while i < v.len() && v[i] != c
        invariant
            from <= i <= v.len(),
            index_from(v@, c, from as int) == index_from(v@, c, i as int),
        decreases v.len() - i,
    {
        i += 1;
    }
    proof {
        lemma_index_from(v@, c, from as int);
    }
    i
}

/// The first position where `v` holds `c`, or `v.len()`.
pub fn find_char(v: &Vec<char>, c: char) -> (r: usize)
    ensures
        r == index_of(v@, c),
        r <= v.len(),
{
    find_from(v, c, 0)
}

/// Tells whether `s` holds `c`.
pub fn str_contains(s: &str, c: char) -> (b: bool)
    ensures
        b == has_char(s@, c),
{
    let v = chars_of(s);
    find_char(&v, c) < v.len()
}

/// The part of an assignment `NAME=VALUE` before the first `=`; the whole text
/// when it holds no `=`.
pub open spec fn assignment_name(s: Seq<char>) -> Seq<char> {
    s.subrange(0, index_of(s, '='))
}

/// The part of an assignment `NAME=VALUE` after the first `=`; empty when the
/// text holds no `=`.
pub open spec fn assignment_value(s: Seq<char>) -> Seq<char> {
    if has_char(s, '=') {
        s.subrange(index_of(s, '=') + 1, s.len() as int)
    } else {
        Seq::empty()
    }
}

/// Splits `NAME=VALUE` at its first `=`.
pub fn split_assignment(set: &str) -> (r: (String, String))
    ensures
        r.0@ == assignment_name(set@),
        r.1@ == assignment_value(set@),
{
    let v = chars_of(set);
    let k = find_char(&v, '=');
    let name = string_of_range(&v, 0, k);
    if k < v.len() {
        (name, string_of_range(&v, k + 1, v.len()))
    } else {
        (name, String::new())
    }
}

/// The position of the first `::` in `s` at or after `from`; the length of `s`
/// when there is none.
pub open spec fn scope_sep_from(s: Seq<char>, from: int) -> int
    decreases s.len() - from,
{
    if from + 1 >= s.len() {
        s.len() as int
    } else if s[from] == ':' && s[from + 1] == ':' {
        from
    } else {
        scope_sep_from(s, from + 1)
    }
}

/// Tells whether a name is qualified, that is holds `::`.
pub open spec fn is_qualified(s: Seq<char>) -> bool {
    scope_sep_from(s, 0) < s.len()
}

/// The namespace of a qualified name: the text before the first `::`.
pub open spec fn namespace_of(s: Seq<char>) -> Seq<char> {
    s.subrange(0, scope_sep_from(s, 0))
}

/// The text between the first `::` and the next one, or the end.
pub open spec fn member_of(s: Seq<char>) -> Seq<char> {
    let start = scope_sep_from(s, 0) + 2;
    if start <= s.len() {
        s.subrange(start, scope_sep_from(s, start))
    } else {
        Seq::empty()
    }
}

/// Bounds of `scope_sep_from`.
pub proof fn lemma_scope_sep_from(s: Seq<char>, from: int)
    requires
        0 <= from <= s.len(),
    ensures
        from <= scope_sep_from(s, from) <= s.len(),
        scope_sep_from(s, from) < s.len() ==> scope_sep_from(s, from) + 2 <= s.len(),
    decreases s.len() - from,
{
    if from + 1 < s.len() && !(s[from] == ':' && s[from + 1] == ':') {
        lemma_scope_sep_from(s, from + 1);
    }
}

fn find_scope_sep(v: &Vec<char>, from: usize) -> (r: usize)
    requires
        from <= v.len(),
    ensures
        r == scope_sep_from(v@, from as int),
        from <= r <= v.len(),
        r < v.len() ==> r + 2 <= v.len(),
{
    let mut i: usize = from;
    while v.len() - i >= 2 && !(v[i] == ':' && v[i + 1] == ':')
        invariant
            from <= i <= v.len(),
            scope_sep_from(v@, from as int) == scope_sep_from(v@, i as int),
        decreases v.len() - i,
    {
        i += 1;
    }
    proof {
        lemma_scope_sep_from(v@, from as int);
    }
    if v.len() - i < 2 {
        v.len()
    } else {
        i
    }
}

/// Splits a qualified name `ns::member` into its two parts; `None` for a name
/// without `::`.
pub fn split_qualified(name: &str) -> (r: Option<(String, String)>)
    ensures
        r is Some <==> is_qualified(name@),
        r matches Some(p) ==> p.0@ == namespace_of(name@) && p.1@ == member_of(name@),
{
    let v = chars_of(name);
    let k = find_scope_sep(&v, 0);
    if k < v.len() {
        let e = find_scope_sep(&v, k + 2);
        Some((string_of_range(&v, 0, k), string_of_range(&v, k + 2, e)))
    } else {
        None
    }
}

/// The fields of `s[i..]` split at white space, where `cur` holds the characters
/// of the field that is being read.
pub open spec fn fields_from(s: Seq<char>, i: int, cur: Seq<char>) -> Seq<Seq<char>>
    decreases s.len() - i,
{
    let done = if cur.len() > 0 {
        seq![cur]
    } else {
        Seq::empty()
    };
    if i >= s.len() {
        done
    } else if is_whitespace(s[i]) {
        done + fields_from(s, i + 1, Seq::empty())
    } else {
        fields_from(s, i + 1, cur.push(s[i]))
    }
}

/// The maximal runs of characters of `s` that are not white space, in order.
pub open spec fn fields(s: Seq<char>) -> Seq<Seq<char>> {
    fields_from(s, 0, Seq::empty())
}

/// Splits the characters of `v` at white space into its non-empty fields.
pub fn split_fields(v: &Vec<char>) -> (out: Vec<String>)
    ensures
        views(out@) == fields(v@),
{
    let mut out: Vec<String> = Vec::new();
    let mut cur = String::new();
    let mut cur_empty = true;
    let mut i: usize = 0;
    while i < v.len()
        invariant
            i <= v.len(),
            cur_empty == (cur@.len() == 0),
            views(out@) + fields_from(v@, i as int, cur@) == fields(v@),
        decreases v.len() - i,
    {
        let c = v[i];
        let ghost done: Seq<Seq<char>> = if cur@.len() > 0 {
            seq![cur@]
        } else {
            Seq::empty()
        };
        assert(fields_from(v@, i as int, cur@) == if is_whitespace(c) {
            done + fields_from(v@, i as int + 1, Seq::empty())
        } else {
            fields_from(v@, i as int + 1, cur@.push(c))
        });
        if char_is_whitespace(c) {
            if !cur_empty {
                let ghost before = views(out@);
                let ghost word = cur@;
                let ghost rest = fields_from(v@, i as int + 1, Seq::empty());
                out.push(cur);
                assert(views(out@) == before + seq![word]);
                assert((before + seq![word]) + rest == before + (seq![word] + rest));
                cur = String::new();
                cur_empty = true;
                assert(views(out@) + fields_from(v@, i as int + 1, cur@) == fields(v@));
            } else {
                assert(Seq::<Seq<char>>::empty() + fields_from(v@, i as int + 1, Seq::empty())
                    == fields_from(v@, i as int + 1, Seq::empty()));
                assert(cur@ == Seq::<char>::empty());
                assert(views(out@) + fields_from(v@, i as int + 1, cur@) == fields(v@));
            }
        } else {
            cur.push(c);
            cur_empty = false;
            assert(views(out@) + fields_from(v@, i as int + 1, cur@) == fields(v@));
        }
        i += 1;
    }
    if !cur_empty {
        let ghost before = views(out@);
        let ghost word = cur@;
        out.push(cur);
        assert(views(out@) == before + seq![word]);
    }
    assert(views(out@) == fields(v@));
    out
}

/// The decimal digit `d` as a character.
pub open spec fn digit_char(d: int) -> char {
    if d == 0 {
        '0'
    } else if d == 1 {
        '1'
    } else if d == 2 {
        '2'
    } else if d == 3 {
        '3'
    } else if d == 4 {
        '4'
    } else if d == 5 {
        '5'
    } else if d == 6 {
        '6'
    } else if d == 7 {
        '7'
    } else if d == 8 {
        '8'
    } else {
        '9'
    }
}

/// The decimal digits of `n`, most significant first, without leading zeros.
pub open spec fn decimal(n: nat) -> Seq<char>
    decreases n,
{
    if n < 10 {
        seq![digit_char(n as int)]
    } else {
        decimal(n / 10).push(digit_char((n % 10) as int))
    }
}

/// The decimal text of an integer: a `-` before the digits of a negative one.
pub open spec fn signed_decimal(n: int) -> Seq<char> {
    if n < 0 {
        seq!['-'] + decimal((-n) as nat)
    } else {
        decimal(n as nat)
    }
}

fn digit_of(d: u64) -> (c: char)
    requires
        d < 10,
    ensures
        c == digit_char(d as int),
{
    if d == 0 {
        '0'
    } else if d == 1 {
        '1'
    } else if d == 2 {
        '2'
    } else if d == 3 {
        '3'
    } else if d == 4 {
        '4'
    } else if d == 5 {
        '5'
    } else if d == 6 {
        '6'
    } else if d == 7 {
        '7'
    } else if d == 8 {
        '8'
    } else {
        '9'
    }
}

/// Appends the decimal digits of `n` to `out`.
pub fn push_decimal(out: &mut String, n: u64)
    ensures
        final(out)@ == old(out)@ + decimal(n as nat),
    decreases n,
{
    if n >= 10 {
        push_decimal(out, n / 10);
    }
    out.push(digit_of(n % 10));
    assert(final(out)@ == old(out)@ + decimal(n as nat));
}

/// Appends the decimal text of `n` to `out`.
pub fn push_signed_decimal(out: &mut String, n: i64)
    ensures
        final(out)@ == old(out)@ + signed_decimal(n as int),
{
    if n < 0 {
        out.push('-');
        let m: u64 = if n == i64::MIN {
            0x8000_0000_0000_0000u64
        } else {
            (-n) as u64
        };
        push_decimal(out, m);
        assert(final(out)@ == old(out)@ + signed_decimal(n as int));
    } else {
        push_decimal(out, n as u64);
    }
}

/// Appends the characters of `s` to `out`.
pub fn push_str(out: &mut String, s: &str)
    ensures
        final(out)@ == old(out)@ + s@,
{
    out.append(s);
}

/// Tells whether `c` is one of `0` to `9`.
pub open spec fn is_digit(c: char) -> bool {
    '0' <= c <= '9'
}

/// The value of the decimal digit `c`.
pub open spec fn digit_value(c: char) -> int {
    c as u32 - '0' as u32
}

/// The number that the decimal digits `s` write.
pub open spec fn digits_value(s: Seq<char>) -> int
    decreases s.len(),
{
    if s.len() == 0 {
        0
    } else {
        10 * digits_value(s.drop_last()) + digit_value(s.last())
    }
}

/// Tells whether `s` is one or more decimal digits.
pub open spec fn is_digits(s: Seq<char>) -> bool {
    s.len() > 0 && forall|i: int| 0 <= i < s.len() ==> is_digit(#[trigger] s[i])
}

/// The decimal digits of a number are digits.
pub proof fn lemma_decimal_digits(n: nat)
    ensures
        is_digits(decimal(n)),
    decreases n,
{
    if n >= 10 {
        lemma_decimal_digits(n / 10);
    }
}

/// A text of digits holds no `::`.
pub proof fn lemma_digits_unqualified(name: Seq<char>, from: int)
    requires
        is_digits(name),
        0 <= from,
    ensures
        scope_sep_from(name, from) == name.len(),
    decreases name.len() - from,
{
    if from + 1 < name.len() {
        assert(is_digit(name[from]));
        lemma_digits_unqualified(name, from + 1);
    }
}

/// An assignment to a name of digits has that name, and the text after the
/// `=` as its value.
pub proof fn lemma_digits_assignment(name: Seq<char>, value: Seq<char>)
    requires
        is_digits(name),
    ensures
        assignment_name(name + "="@ + value) == name,
        assignment_value(name + "="@ + value) == value,
        !is_qualified(name),
{
    reveal_strlit("=");
    let s = name + "="@ + value;
    lemma_index_from(s, '=', 0);
    let r = index_of(s, '=');
    assert(s[name.len() as int] == '=');
    if r < name.len() {
        assert(is_digit(name[r]));
        assert(s[r] == name[r]);
    }
    assert(r == name.len());
    assert(s.subrange(0, r) =~= name);
    assert(s.subrange(r + 1, s.len() as int) =~= value);
    lemma_digits_unqualified(name, 0);
}

/// The text of a number without its sign: `s` without a leading `+` or `-`.
pub open spec fn unsigned_part(s: Seq<char>) -> Seq<char> {
    if s.len() > 0 && (s[0] == '-' || s[0] == '+') {
        s.subrange(1, s.len() as int)
    } else {
        s
    }
}

/// The integer that `s` writes, if it is a decimal integer that fits in 32
/// bits: an optional `+` or `-`, then one or more digits.
pub open spec fn parse_int(s: Seq<char>) -> Option<int> {
    let negative = s.len() > 0 && s[0] == '-';
    let digits = unsigned_part(s);
    let value = if negative {
        -digits_value(digits)
    } else {
        digits_value(digits)
    };
    if is_digits(digits) && i32::MIN <= value <= i32::MAX {
        Some(value)
    } else {
        None
    }
}

/// A longer run of digits writes a number at least as large as its prefix.
pub proof fn lemma_digits_value_prefix(s: Seq<char>, k: int)
    requires
        0 <= k <= s.len(),
        forall|i: int| 0 <= i < s.len() ==> is_digit(#[trigger] s[i]),
    ensures
        0 <= digits_value(s.subrange(0, k)) <= digits_value(s),
    decreases s.len() - k,
{
    lemma_digits_value_nonneg(s.subrange(0, k));
    if k == s.len() {
        assert(s.subrange(0, k) == s);
    } else {
        let t = s.subrange(0, k + 1);
        assert(t.drop_last() == s.subrange(0, k));
        lemma_digits_value_prefix(s, k + 1);
    }
}

proof fn lemma_digits_value_nonneg(s: Seq<char>)
    requires
        forall|i: int| 0 <= i < s.len() ==> is_digit(#[trigger] s[i]),
    ensures
        digits_value(s) >= 0,
    decreases s.len(),
{
    if s.len() > 0 {
        lemma_digits_value_nonneg(s.drop_last());
    }
}

/// Reads a decimal integer of 32 bits, with an optional sign.
pub fn parse_i32(text: &str) -> (r: Option<i32>)
    ensures
        r is Some <==> parse_int(text@) is Some,
        r matches Some(n) ==> parse_int(text@) == Some(n as int),
{
    let v = chars_of(text);
    let n = v.len();
    let negative = n > 0 && v[0] == '-';
    let start: usize = if n > 0 && (v[0] == '-' || v[0] == '+') {
        1
    } else {
        0
    };
    let ghost digits = v@.subrange(start as int, n as int);
    assert(digits == unsigned_part(text@));
    if start == n {
        return None;
    }
    let mut acc: u64 = 0;
    let mut i: usize = start;
    while i < n
        invariant
            start <= i <= n == v.len(),
            digits == v@.subrange(start as int, n as int),
            digits == unsigned_part(text@),
            forall|j: int| 0 <= j < i - start ==> is_digit(#[trigger] digits[j]),
            acc == digits_value(digits.subrange(0, i - start)),
            acc <= 0x8000_0000u64,
        decreases n - i,
    {
        let c = v[i];
        if !('0' <= c && c <= '9') {
            assert(!is_digit(digits[i - start]));
            return None;
        }
        let d: u64 = (c as u32 - '0' as u32) as u64;
        let ghost prev = digits.subrange(0, i - start);
        let ghost next = digits.subrange(0, i - start + 1);
        assert(next.drop_last() == prev);
        assert(next.last() == c);
        acc = acc * 10 + d;
        if acc > 0x8000_0000u64 {
            proof {
                if is_digits(digits) {
                    lemma_digits_value_prefix(digits, i - start + 1);
                }
            }
            return None;
        }
        i += 1;
    }
    assert(digits.subrange(0, n - start) == digits);
    assert(is_digits(digits));
    if negative {
        if acc == 0x8000_0000u64 {
            Some(i32::MIN)
        } else {
            Some(-(acc as i32))
        }
    } else if acc == 0x8000_0000u64 {
        None
    } else {
        Some(acc as i32)
    }
}

} // verus!

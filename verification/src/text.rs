//! Text utilities shared by the formatter and the sinks: counting
//! characters, prefix tests, hyphen normalization, rendering of decimal
//! numbers, splitting a journal into lines, path extensions, and the
//! lexicographic order with its sort.

use vstd::prelude::*;

verus! {

/// The ANSI escape character that opens every terminal control sequence.
pub open spec fn esc() -> char {
    '\x1B'
}

/// How many occurrences of the character `c` the string holds.
pub open spec fn count_char(s: Seq<char>, c: char) -> nat
    decreases s.len(),
{
    if s.len() == 0 {
        0
    } else {
        count_char(s.drop_last(), c) + (if s.last() == c {
            1nat
        } else {
            0nat
        })
    }
}

/// Appending one character raises the count of `c` by one exactly when that
/// character is `c`.
pub broadcast proof fn lemma_count_char_push(s: Seq<char>, x: char, c: char)
    ensures
        #[trigger] count_char(s.push(x), c) == count_char(s, c) + (if x == c {
            1nat
        } else {
            0nat
        }),
{
    assert(s.push(x).drop_last() =~= s);
    assert(s.push(x).last() == x);
}

/// The count of a character distributes over concatenation.
pub proof fn lemma_count_char_concat(a: Seq<char>, b: Seq<char>, c: char)
    ensures
        count_char(a + b, c) == count_char(a, c) + count_char(b, c),
    decreases b.len(),
{
    if b.len() == 0 {
        assert(a + b =~= a);
    } else {
        lemma_count_char_concat(a, b.drop_last(), c);
        assert((a + b).drop_last() =~= a + b.drop_last());
        assert((a + b).last() == b.last());
    }
}

/// A string holds no occurrence of `c` exactly when its count of `c` is zero.
pub proof fn lemma_count_char_zero(s: Seq<char>, c: char)
    ensures
        (count_char(s, c) == 0) <==> (forall|i: int| 0 <= i < s.len() ==> s[i] != c),
    decreases s.len(),
{
    if s.len() > 0 {
        lemma_count_char_zero(s.drop_last(), c);
        assert(forall|i: int| 0 <= i < s.len() - 1 ==> s[i] == s.drop_last()[i]);
        assert(s.last() == s[s.len() - 1]);
    }
}

/// A string whose first character is `c` and whose remainder is free of `c`
/// holds exactly one occurrence of `c`.
pub proof fn lemma_count_char_one(s: Seq<char>, c: char)
    requires
        s.len() > 0,
        s[0] == c,
        forall|i: int| 1 <= i < s.len() ==> s[i] != c,
    ensures
        count_char(s, c) == 1,
{
    broadcast use lemma_count_char_push;

    assert(s =~= seq![c] + s.drop_first());
    lemma_count_char_concat(seq![c], s.drop_first(), c);
    assert(forall|i: int| 0 <= i < s.drop_first().len() ==> s.drop_first()[i] == s[i + 1]);
    lemma_count_char_zero(s.drop_first(), c);
}

/// `p` is a prefix of `s`.
pub open spec fn spec_is_prefix(p: Seq<char>, s: Seq<char>) -> bool {
    p.len() <= s.len() && s.subrange(0, p.len() as int) == p
}

/// Decides whether the string `s` starts with the string `p`.
pub fn starts_with(s: &str, p: &str) -> (r: bool)
    ensures
        r == spec_is_prefix(p@, s@),
{
    let s_len = s.unicode_len();
    let p_len = p.unicode_len();
    if p_len > s_len {
        assert(!spec_is_prefix(p@, s@));
        return false;
    }
    let mut i: usize = 0;
    while i < p_len
        invariant
            s_len == s@.len(),
            p_len == p@.len(),
            p_len <= s_len,
            i <= p_len,
            forall|j: int| 0 <= j < i ==> s@[j] == p@[j],
        decreases p_len - i,
    {
        if s.get_char(i) != p.get_char(i) {
            assert(s@.subrange(0, p@.len() as int)[i as int] != p@[i as int]);
            return false;
        }
        i = i + 1;
    }
    assert(s@.subrange(0, p@.len() as int) =~= p@);
    true
}

/// Relies on `String::push` of the standard library: it appends the given
/// character to the end of the string.
#[verifier::external_body]
pub(crate) fn push_char(s: &mut String, c: char)
    ensures
        final(s)@ == old(s)@ + seq![c],
{
    s.push(c);
}

/// A target name with every hyphen replaced by an underscore, so that it can
/// be compared with Rust module paths.
pub open spec fn spec_normalize_target(s: Seq<char>) -> Seq<char> {
    Seq::new(
        s.len(),
        |i: int|
            if s[i] == '-' {
                '_'
            } else {
                s[i]
            },
    )
}

/// Replaces every hyphen in `s` by an underscore.
pub fn normalize_target(s: &str) -> (r: String)
    ensures
        r@ == spec_normalize_target(s@),
{
    let len = s.unicode_len();
    let mut out = String::new();
    let mut i: usize = 0;
    while i < len
        invariant
            len == s@.len(),
            i <= len,
            out@ == spec_normalize_target(s@).subrange(0, i as int),
        decreases len - i,
    {
        let c = s.get_char(i);
        if c == '-' {
            push_char(&mut out, '_');
        } else {
            push_char(&mut out, c);
        }
        assert(out@ =~= spec_normalize_target(s@).subrange(0, i + 1));
        i = i + 1;
    }
    assert(out@ =~= spec_normalize_target(s@));
    out
}

/// The decimal digit character for a value under ten.
pub open spec fn spec_digit(d: int) -> char {
    if d == 0 {
        '0'
    } else if d == 1 {
        '1'
    } else if d == 2 {
        '2'
    } else if d == 3 {
        '3'
    } else if d == 4 {
        '4'
    } else if d == 5 {
        '5'
    } else if d == 6 {
        '6'
    } else if d == 7 {
        '7'
    } else if d == 8 {
        '8'
    } else {
        '9'
    }
}

/// The usual decimal rendering of a natural number, without leading zeros.
pub open spec fn spec_decimal(n: int) -> Seq<char>
    decreases n,
{
    if n < 10 {
        seq![spec_digit(n)]
    } else {
        spec_decimal(n / 10).push(spec_digit(n % 10))
    }
}

/// Renders a number in decimal.
pub fn u64_to_string(n: u64) -> (r: String)
    ensures
        r@ == spec_decimal(n as int),
{
    let mut digits: Vec<char> = Vec::new();
    let mut m: u64 = n;
    assert(spec_decimal(n as int) =~= spec_decimal(m as int) + digits@.reverse());
    loop
        invariant_except_break
            spec_decimal(n as int) == spec_decimal(m as int) + digits@.reverse(),
        ensures
            digits@.reverse() == spec_decimal(n as int),
        decreases m,
    {
        let d: u64 = m % 10;
        let next: u64 = m / 10;
        let ghost digits_pre = digits@;
        digits.push(digit_char(d));
        proof {
            assert(digits@.reverse() =~= seq![spec_digit(d as int)] + digits_pre.reverse());
        }
        if next == 0 {
            proof {
                assert(m < 10);
                assert(spec_decimal(m as int) == seq![spec_digit(m as int)]);
                assert(digits@.reverse() =~= spec_decimal(m as int) + digits_pre.reverse());
            }
            break;
        }
        proof {
            assert(m >= 10);
            assert(spec_decimal(m as int) == spec_decimal(next as int).push(spec_digit(d as int)));
            assert(spec_decimal(next as int) + digits@.reverse() =~= spec_decimal(m as int)
                + digits_pre.reverse());
        }
        m = next;
    }
    let mut out = String::new();
    let mut i: usize = digits.len();
    while i > 0
        invariant
            i <= digits.len(),
            digits@.reverse() == spec_decimal(n as int),
            out@ =~= spec_decimal(n as int).subrange(0, (digits.len() - i) as int),
        decreases i,
    {
        i = i - 1;
        let c = digits[i];
        push_char(&mut out, c);
        proof {
            let k = (digits@.len() - 1 - i) as int;
            assert(digits@.reverse()[k] == digits@[i as int]);
            assert(out@ =~= spec_decimal(n as int).subrange(0, k + 1));
        }
    }
    assert(out@ =~= spec_decimal(n as int));
    out
}

/// Position of the first newline in `s`, or `s.len()` when `s` holds none.
pub open spec fn spec_first_nl(s: Seq<char>) -> int
    decreases s.len(),
{
    if s.len() == 0 {
        0
    } else if s[0] == '\n' {
        0
    } else {
        1 + spec_first_nl(s.drop_first())
    }
}

/// Where the first newline of a string stands: within the string, on a
/// newline, with none before it; at the string's end when there is none.
pub proof fn lemma_first_nl(s: Seq<char>)
    ensures
        0 <= spec_first_nl(s) <= s.len(),
        spec_first_nl(s) < s.len() ==> s[spec_first_nl(s)] == '\n',
        forall|j: int| 0 <= j < spec_first_nl(s) ==> s[j] != '\n',
        spec_first_nl(s) == s.len() ==> forall|j: int| 0 <= j < s.len() ==> s[j] != '\n',
    decreases s.len(),
{
    if s.len() > 0 && s[0] != '\n' {
        lemma_first_nl(s.drop_first());
        assert(forall|j: int| 1 <= j < spec_first_nl(s) ==> s[j] == s.drop_first()[j - 1]);
        assert(forall|j: int| 1 <= j < s.len() ==> s[j] == s.drop_first()[j - 1]);
    }
}

/// The position of the first newline is the position of any newline that has
/// no newline before it.
pub proof fn lemma_first_nl_is(s: Seq<char>, k: int)
    requires
        0 <= k < s.len(),
        s[k] == '\n',
        forall|j: int| 0 <= j < k ==> s[j] != '\n',
    ensures
        spec_first_nl(s) == k,
    decreases s.len(),
{
    if k > 0 {
        assert(forall|j: int| 0 <= j < k - 1 ==> s.drop_first()[j] == s[j + 1]);
        lemma_first_nl_is(s.drop_first(), k - 1);
    }
}

/// The lines of a string: the segments between newlines, each newline closing
/// the line before it; a last segment without a closing newline counts as a
/// line of its own, and an empty string holds no lines.
pub open spec fn spec_lines(s: Seq<char>) -> Seq<Seq<char>>
    decreases s.len(),
    via spec_lines_decreases
{
    if s.len() == 0 {
        Seq::empty()
    } else if spec_first_nl(s) == s.len() {
        seq![s]
    } else {
        seq![s.take(spec_first_nl(s))] + spec_lines(s.skip(spec_first_nl(s) + 1))
    }
}

#[via_fn]
proof fn spec_lines_decreases(s: Seq<char>) {
    lemma_first_nl(s);
}

/// Closing a journal with one more newline-free record adds exactly one line,
/// that record, at the end.
pub proof fn lemma_lines_append(s: Seq<char>, r: Seq<char>)
    requires
        s.len() == 0 || s.last() == '\n',
        forall|i: int| 0 <= i < r.len() ==> r[i] != '\n',
    ensures
        spec_lines(s + r + seq!['\n']) == spec_lines(s).push(r),
    decreases s.len(),
{
    let t = s + r + seq!['\n'];
    lemma_first_nl(s);
    if s.len() == 0 {
        assert(t.len() == r.len() + 1);
        assert(forall|j: int| 0 <= j < r.len() ==> t[j] == r[j]);
        assert(t[r.len() as int] == '\n');
        lemma_first_nl_is(t, r.len() as int);
        assert(spec_first_nl(t) == r.len() < t.len());
        assert(spec_lines(t) == seq![t.take(r.len() as int)] + spec_lines(
            t.skip(r.len() as int + 1),
        ));
        assert(t.take(r.len() as int) =~= r);
        assert(t.skip(r.len() as int + 1) =~= Seq::<char>::empty());
        assert(spec_lines(Seq::<char>::empty()) =~= Seq::<Seq<char>>::empty());
        assert(spec_lines(t) =~= seq![r]);
        assert(spec_lines(s).push(r) =~= seq![r]);
    } else {
        let i = spec_first_nl(s);
        assert(s[s.len() - 1] == '\n');
        assert(i < s.len());
        assert(forall|j: int| 0 <= j < i ==> t[j] == s[j]);
        lemma_first_nl_is(t, i);
        assert(t.take(i) =~= s.take(i));
        assert(t.skip(i + 1) =~= s.skip(i + 1) + r + seq!['\n']);
        let s2 = s.skip(i + 1);
        assert(s2.len() == 0 || s2.last() == '\n');
        lemma_lines_append(s2, r);
        assert(spec_lines(t) =~= spec_lines(s).push(r));
    }
}

/// The journal formed by a sequence of records: each record followed by one
/// newline, in order.
pub open spec fn spec_journal(records: Seq<Seq<char>>) -> Seq<char>
    decreases records.len(),
{
    if records.len() == 0 {
        Seq::empty()
    } else {
        spec_journal(records.drop_last()) + records.last() + seq!['\n']
    }
}

/// A journal ends with a newline unless it is empty.
pub proof fn lemma_journal_shape(records: Seq<Seq<char>>)
    ensures
        spec_journal(records).len() == 0 || spec_journal(records).last() == '\n',
{
    if records.len() != 0 {
        let t = spec_journal(records.drop_last()) + records.last() + seq!['\n'];
        assert(t.last() == '\n');
    }
}

/// Round trip of the file sink: a journal of newline-free records splits back
/// into exactly those records, in the order they were written.
pub proof fn lemma_journal_round_trip(records: Seq<Seq<char>>)
    requires
        forall|k: int, i: int|
            0 <= k < records.len() && 0 <= i < records[k].len() ==> records[k][i] != '\n',
    ensures
        spec_lines(spec_journal(records)) == records,
    decreases records.len(),
{
    if records.len() == 0 {
        assert(spec_lines(spec_journal(records)) =~= records);
    } else {
        let front = records.drop_last();
        assert(forall|k: int, i: int|
            0 <= k < front.len() && 0 <= i < front[k].len() ==> front[k][i] != '\n');
        lemma_journal_round_trip(front);
        lemma_journal_shape(front);
        assert(forall|i: int|
            0 <= i < records.last().len() ==> records.last()[i] != '\n');
        lemma_lines_append(spec_journal(front), records.last());
        assert(spec_lines(spec_journal(records)) =~= records);
    }
}

/// Splits a string into its lines, as `spec_lines` describes them.
pub fn split_lines(s: &str) -> (r: Vec<String>)
    ensures
        r.deep_view() == spec_lines(s@),
{
    let len = s.unicode_len();
    let mut out: Vec<String> = Vec::new();
    let mut cur = String::new();
    proof {
        assert(out.deep_view() =~= Seq::<Seq<char>>::empty());
        assert(cur@ + s@.skip(0) =~= s@);
        assert(out.deep_view() + spec_lines(s@) =~= spec_lines(s@));
    }
    let mut i: usize = 0;
    while i < len
        invariant
            len == s@.len(),
            i <= len,
            forall|j: int| 0 <= j < cur@.len() ==> cur@[j] != '\n',
            spec_lines(s@) == out.deep_view() + spec_lines(cur@ + s@.skip(i as int)),
        decreases len - i,
    {
        let ghost rest_pre = cur@ + s@.skip(i as int);
        let c = s.get_char(i);
        if c == '\n' {
            proof {
                assert(rest_pre[cur@.len() as int] == '\n');
                lemma_first_nl_is(rest_pre, cur@.len() as int);
                assert(rest_pre.take(cur@.len() as int) =~= cur@);
                assert(rest_pre.skip(cur@.len() as int + 1) =~= s@.skip(i + 1));
                assert(spec_lines(rest_pre) == seq![cur@] + spec_lines(s@.skip(i + 1)));
            }
            let ghost out_pre = out.deep_view();
            let ghost cur_pre = cur@;
            out.push(cur);
            cur = String::new();
            proof {
                assert(out.deep_view() =~= out_pre.push(cur_pre));
                assert(out_pre.push(cur_pre) + spec_lines(s@.skip(i + 1)) =~= out_pre + (seq![
                    cur_pre,
                ] + spec_lines(s@.skip(i + 1))));
                assert(cur@ + s@.skip(i + 1) =~= s@.skip(i + 1));
            }
        } else {
            let ghost cur_pre = cur@;
            push_char(&mut cur, c);
            proof {
                assert(cur@ + s@.skip(i + 1) =~= cur_pre + s@.skip(i as int));
            }
        }
        i = i + 1;
    }
    proof {
        assert(cur@ + s@.skip(len as int) =~= cur@);
    }
    if !cur.as_str().is_empty() {
        proof {
            assert(cur@.len() > 0);
            lemma_first_nl(cur@);
            if spec_first_nl(cur@) < cur@.len() {
                assert(cur@[spec_first_nl(cur@)] == '\n');
                assert(false);
            }
            assert(spec_lines(cur@) == seq![cur@]);
        }
        let ghost out_pre = out.deep_view();
        let ghost cur_pre = cur@;
        out.push(cur);
        proof {
            assert(out.deep_view() =~= out_pre.push(cur_pre));
            assert(out_pre + seq![cur_pre] =~= out_pre.push(cur_pre));
        }
    } else {
        proof {
            assert(cur@.len() == 0);
            assert(spec_lines(cur@) =~= Seq::<Seq<char>>::empty());
            assert(out.deep_view() + spec_lines(cur@) =~= out.deep_view());
        }
    }
    out
}

/// The decimal digit character for a value under ten.
pub fn digit_char(d: u64) -> (c: char)
    requires
        d < 10,
    ensures
        c == spec_digit(d as int),
{
    match d {
        0 => '0',
        1 => '1',
        2 => '2',
        3 => '3',
        4 => '4',
        5 => '5',
        6 => '6',
        7 => '7',
        8 => '8',
        _ => '9',
    }
}

/// Position of the last occurrence of `c` in `s`, or -1 when there is none.
pub open spec fn spec_last_index(s: Seq<char>, c: char) -> int
    decreases s.len(),
{
    if s.len() == 0 {
        -1
    } else if s.last() == c {
        s.len() - 1
    } else {
        spec_last_index(s.drop_last(), c)
    }
}

/// Where the last occurrence of a character stands: within the string, on
/// the character, with none after it; -1 exactly when the string holds none.
pub proof fn lemma_last_index(s: Seq<char>, c: char)
    ensures
        -1 <= spec_last_index(s, c) < s.len(),
        spec_last_index(s, c) >= 0 ==> s[spec_last_index(s, c)] == c,
        forall|j: int| spec_last_index(s, c) < j < s.len() ==> s[j] != c,
    decreases s.len(),
{
    if s.len() > 0 && s.last() != c {
        lemma_last_index(s.drop_last(), c);
        assert(forall|j: int| 0 <= j < s.len() - 1 ==> s[j] == s.drop_last()[j]);
        assert(s[s.len() - 1] == s.last());
    }
}

/// Dropping a prefix shifts the position of the last occurrence, or loses it
/// when it stood inside the prefix.
pub proof fn lemma_last_index_skip(s: Seq<char>, c: char, k: int)
    requires
        0 <= k <= s.len(),
    ensures
        spec_last_index(s.skip(k), c) == (if spec_last_index(s, c) >= k {
            spec_last_index(s, c) - k
        } else {
            -1
        }),
    decreases s.len(),
{
    lemma_last_index(s, c);
    if s.len() == k {
        assert(s.skip(k) =~= Seq::<char>::empty());
    } else {
        assert(s.skip(k).last() == s.last());
        if s.last() == c {
        } else {
            assert(s.skip(k).drop_last() =~= s.drop_last().skip(k));
            lemma_last_index_skip(s.drop_last(), c, k);
        }
    }
}

/// Finds the position of the last occurrence of `c` in `s`.
pub fn last_index_of(s: &str, c: char) -> (r: Option<usize>)
    ensures
        match r {
            Some(i) => spec_last_index(s@, c) == i as int,
            None => spec_last_index(s@, c) == -1,
        },
{
    let len = s.unicode_len();
    let mut best: Option<usize> = None;
    proof {
        assert(s@.take(0) =~= Seq::<char>::empty());
    }
    let mut i: usize = 0;
    while i < len
        invariant
            len == s@.len(),
            i <= len,
            match best {
                Some(b) => spec_last_index(s@.take(i as int), c) == b as int && b < i,
                None => spec_last_index(s@.take(i as int), c) == -1,
            },
        decreases len - i,
    {
        let ch = s.get_char(i);
        proof {
            assert(s@.take(i + 1).drop_last() =~= s@.take(i as int));
            assert(s@.take(i + 1).last() == s@[i as int]);
        }
        if ch == c {
            best = Some(i);
        }
        i = i + 1;
    }
    proof {
        assert(s@.take(len as int) =~= s@);
    }
    best
}

/// Lexicographic order on strings by code point, a shorter string coming
/// before every string it is a prefix of.
pub open spec fn spec_lex_le(a: Seq<char>, b: Seq<char>) -> bool
    decreases a.len(),
{
    if a.len() == 0 {
        true
    } else if b.len() == 0 {
        false
    } else if (a[0] as u32) < (b[0] as u32) {
        true
    } else if (a[0] as u32) > (b[0] as u32) {
        false
    } else {
        spec_lex_le(a.drop_first(), b.drop_first())
    }
}

/// Any two strings are comparable in the lexicographic order.
pub proof fn lemma_lex_total(a: Seq<char>, b: Seq<char>)
    ensures
        spec_lex_le(a, b) || spec_lex_le(b, a),
    decreases a.len(),
{
    if a.len() > 0 && b.len() > 0 && a[0] as u32 == b[0] as u32 {
        lemma_lex_total(a.drop_first(), b.drop_first());
    }
}

/// The lexicographic order is transitive.
pub proof fn lemma_lex_trans(a: Seq<char>, b: Seq<char>, c: Seq<char>)
    requires
        spec_lex_le(a, b),
        spec_lex_le(b, c),
    ensures
        spec_lex_le(a, c),
    decreases a.len(),
{
    if a.len() > 0 && b.len() > 0 && c.len() > 0 && a[0] as u32 == b[0] as u32 && b[0] as u32
        == c[0] as u32 {
        lemma_lex_trans(a.drop_first(), b.drop_first(), c.drop_first());
    }
}

/// Decides the lexicographic order between two strings.
pub fn str_le(a: &str, b: &str) -> (r: bool)
    ensures
        r == spec_lex_le(a@, b@),
{
    let a_len = a.unicode_len();
    let b_len = b.unicode_len();
    let mut i: usize = 0;
    proof {
        assert(a@.skip(0) =~= a@);
        assert(b@.skip(0) =~= b@);
    }
    loop
        invariant
            a_len == a@.len(),
            b_len == b@.len(),
            i <= a_len,
            i <= b_len,
            spec_lex_le(a@, b@) == spec_lex_le(a@.skip(i as int), b@.skip(i as int)),
        decreases a_len - i,
    {
        if i == a_len {
            proof {
                assert(a@.skip(i as int).len() == 0);
            }
            return true;
        }
        if i == b_len {
            proof {
                assert(b@.skip(i as int).len() == 0);
                assert(a@.skip(i as int).len() > 0);
            }
            return false;
        }
        let ca = a.get_char(i) as u32;
        let cb = b.get_char(i) as u32;
        proof {
            assert(a@.skip(i as int)[0] == a@[i as int]);
            assert(b@.skip(i as int)[0] == b@[i as int]);
            assert(a@.skip(i as int).drop_first() =~= a@.skip(i as int + 1));
            assert(b@.skip(i as int).drop_first() =~= b@.skip(i as int + 1));
        }
        if ca < cb {
            return true;
        }
        if ca > cb {
            return false;
        }
        i = i + 1;
    }
}

/// The final component of a path: everything after the last slash, or the
/// whole path when it has none.
pub open spec fn spec_path_component(s: Seq<char>) -> Seq<char> {
    s.skip(spec_last_index(s, '/') + 1)
}

/// The extension of a path: what follows the last dot of its final
/// component, when that dot is neither its first character nor part of the
/// parent marker; `None` otherwise, as the standard library has it.
pub open spec fn spec_extension(s: Seq<char>) -> Option<Seq<char>> {
    let c = spec_path_component(s);
    if c == ".."@ {
        None
    } else if spec_last_index(c, '.') <= 0 {
        None
    } else {
        Some(c.skip(spec_last_index(c, '.') + 1))
    }
}

/// Extracts the extension of a path, as `spec_extension` describes it.
pub fn extension_of(s: &str) -> (r: Option<String>)
    ensures
        match r {
            Some(e) => spec_extension(s@) == Some(e@),
            None => spec_extension(s@) is None,
        },
{
    let len = s.unicode_len();
    let slash = last_index_of(s, '/');
    proof {
        lemma_last_index(s@, '/');
    }
    let comp_start: usize = match slash {
        Some(i) => i + 1,
        None => 0,
    };
    proof {
        assert(comp_start as int == spec_last_index(s@, '/') + 1);
        assert(comp_start <= len);
    }
    let ghost comp = spec_path_component(s@);
    let two_dots = len - comp_start == 2 && s.get_char(comp_start) == '.' && s.get_char(
        comp_start + 1,
    ) == '.';
    proof {
        reveal_strlit("..");
        assert(comp == s@.skip(comp_start as int));
        if two_dots {
            assert(comp =~= ".."@);
        } else {
            if comp == ".."@ {
                assert(comp.len() == 2);
                assert(s@[comp_start as int] == comp[0]);
                assert(s@[comp_start + 1] == comp[1]);
                assert(false);
            }
        }
    }
    if two_dots {
        return None;
    }
    let dot = match last_index_of(s, '.') {
        Some(i) => i,
        None => {
            proof {
                lemma_last_index_skip(s@, '.', comp_start as int);
            }
            return None;
        },
    };
    proof {
        lemma_last_index(s@, '.');
        lemma_last_index_skip(s@, '.', comp_start as int);
    }
    if dot <= comp_start {
        return None;
    }
    let ext = s.substring_char(dot + 1, len);
    proof {
        assert(spec_last_index(comp, '.') == dot - comp_start);
        assert(comp.skip(dot - comp_start + 1) =~= s@.skip(dot + 1));
        assert(ext@ =~= s@.skip(dot + 1));
    }
    Some(String::from_str(ext))
}

/// Every pair drawn from the sequence in order stands in the lexicographic
/// order: earlier strings are at most later ones.
pub open spec fn spec_sorted_strings(s: Seq<String>) -> bool {
    forall|i: int, j: int| 0 <= i < j < s.len() ==> spec_lex_le(s[i]@, s[j]@)
}

/// Sorts the strings into lexicographic order; the result is a permutation
/// of the input.
pub fn sort_strings(v: &mut Vec<String>)
    ensures
        spec_sorted_strings(final(v)@),
        final(v)@.to_multiset() == old(v)@.to_multiset(),
        final(v)@.len() == old(v)@.len(),
{
    let ghost orig = v@;
    let mut i: usize = 1;
    while i < v.len()
        invariant
            1 <= i,
            i <= v@.len() || v@.len() < 1,
            v@.len() == orig.len(),
            v@.to_multiset() == orig.to_multiset(),
            forall|p: int, q: int| 0 <= p < q < i && q < v@.len() ==> spec_lex_le(v@[p]@, v@[q]@),
        decreases v@.len() - i,
    {
        let ghost before = v@;
        let x = v.remove(i);
        proof {
            broadcast use vstd::seq_lib::group_to_multiset_ensures;

            assert(v@.to_multiset() == before.to_multiset().remove(before[i as int]));
        }
        let mut j: usize = 0;
        while j < i && str_le(v[j].as_str(), x.as_str())
            invariant
                j <= i,
                i < before.len(),
                v@ == before.remove(i as int),
                forall|p: int| 0 <= p < j ==> spec_lex_le(v@[p]@, x@),
            decreases i - j,
        {
            j = j + 1;
        }
        proof {
            if j < i {
                assert(!spec_lex_le(v@[j as int]@, x@));
                lemma_lex_total(v@[j as int]@, x@);
                assert(spec_lex_le(x@, v@[j as int]@));
            }
        }
        let ghost removed = v@;
        let ghost pos = j as int;
        v.insert(j, x);
        proof {
            broadcast use vstd::seq_lib::group_to_multiset_ensures;

            assert(v@ =~= removed.insert(pos, x));
            assert(v@.to_multiset() == removed.to_multiset().insert(x));
            assert(removed.to_multiset().insert(x) =~= before.to_multiset());
            assert(v@.to_multiset() == orig.to_multiset());
            assert forall|p: int, q: int|
                0 <= p < q < i + 1 && q < v@.len() implies spec_lex_le(v@[p]@, v@[q]@) by {
                lemma_sorted_after_insert(before, removed, v@, x, pos, i as int, p, q);
            }
        }
        i = i + 1;
    }
    proof {
        if v@.len() >= 1 {
            assert(forall|p: int, q: int|
                0 <= p < q < v@.len() ==> spec_lex_le(v@[p]@, v@[q]@));
        }
    }
}

/// After taking the element at `i` out of a sequence whose first `i` elements
/// are sorted, and putting it back at the position `pos` that the scan chose,
/// the first `i + 1` elements are sorted.
proof fn lemma_sorted_after_insert(
    before: Seq<String>,
    removed: Seq<String>,
    after: Seq<String>,
    x: String,
    pos: int,
    i: int,
    p: int,
    q: int,
)
    requires
        0 < i < before.len(),
        removed == before.remove(i),
        0 <= pos <= i,
        after == removed.insert(pos, x),
        forall|a: int, b: int| 0 <= a < b < i && b < before.len() ==> spec_lex_le(
            before[a]@,
            before[b]@,
        ),
        forall|a: int| 0 <= a < pos ==> spec_lex_le(removed[a]@, x@),
        pos < i ==> spec_lex_le(x@, removed[pos]@),
        0 <= p < q < i + 1,
        q < after.len(),
    ensures
        spec_lex_le(after[p]@, after[q]@),
{
    assert(forall|a: int| 0 <= a < i ==> removed[a] == before[a]);
    assert(forall|a: int| 0 <= a < pos ==> after[a] == removed[a]);
    assert(after[pos] == x);
    assert(forall|a: int| pos < a < after.len() ==> after[a] == removed[a - 1]);
    if p < pos && q < pos {
    } else if p < pos && q == pos {
    } else if p == pos && q > pos {
        if pos < i {
            assert(spec_lex_le(x@, removed[pos]@));
            if q - 1 == pos {
            } else {
                lemma_lex_trans(x@, removed[pos]@, removed[q - 1]@);
            }
        }
    } else if p < pos && q > pos {
        if q - 1 < pos {
        } else if q - 1 == pos {
            if pos < i {
                lemma_lex_trans(after[p]@, x@, removed[pos]@);
            }
        } else {
            assert(spec_lex_le(removed[p]@, removed[q - 1]@));
        }
    } else if p > pos && q > pos {
        assert(spec_lex_le(removed[p - 1]@, removed[q - 1]@));
    }
}

} // verus!

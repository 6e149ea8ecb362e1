use vstd::prelude::*;
use vstd::slice::slice_subrange;
use vstd::slice::slice_to_vec;

verus! {

/// Whether a byte is ASCII whitespace: a space, or one of the controls from
/// tab to carriage return.
pub open spec fn is_space(b: u8) -> bool {
    b == 32 || (9 <= b && b <= 13)
}

/// The byte sequences held by a vector of byte vectors.
pub open spec fn views(v: Vec<Vec<u8>>) -> Seq<Seq<u8>> {
    Seq::new(v@.len(), |i: int| v@[i]@)
}

/// The whitespace-separated fields of `s`, in order. A byte that is no
/// whitespace either extends the field that the byte before it belongs to,
/// or begins a new field.
pub open spec fn split_fields(s: Seq<u8>) -> Seq<Seq<u8>>
    decreases s.len(),
{
    if s.len() == 0 {
        Seq::empty()
    } else {
        let init = s.drop_last();
        let done = split_fields(init);
        if is_space(s.last()) {
            done
        } else if init.len() > 0 && !is_space(init.last()) && done.len() > 0 {
            done.update(done.len() - 1, done.last().push(s.last()))
        } else {
            done.push(seq![s.last()])
        }
    }
}

/// The number of bytes from position `i` up to the next line feed or the
/// end of `s`.
pub open spec fn line_len(s: Seq<u8>, i: int) -> nat
    decreases s.len() - i,
{
    if 0 <= i < s.len() && s[i] != 10 {
        1 + line_len(s, i + 1)
    } else {
        0
    }
}

/// The line that begins at position `i`, without its line feed and without
/// a carriage return before the line feed.
pub open spec fn line_at(s: Seq<u8>, i: int) -> Seq<u8> {
    let e = i + line_len(s, i);
    if e < s.len() && e > i && s[e - 1] == 13 {
        s.subrange(i, e - 1)
    } else {
        s.subrange(i, e)
    }
}

/// The lines of `s` from position `i` on.
pub open spec fn lines_from(s: Seq<u8>, i: int) -> Seq<Seq<u8>>
    decreases s.len() - i,
{
    if 0 <= i < s.len() {
        let next = i + (line_len(s, i) as int) + 1;
        if i < next < s.len() {
            seq![line_at(s, i)] + lines_from(s, next)
        } else {
            seq![line_at(s, i)]
        }
    } else {
        Seq::empty()
    }
}

/// The lines of a text. A line feed ends a line; the last line needs none.
pub open spec fn split_lines(s: Seq<u8>) -> Seq<Seq<u8>> {
    lines_from(s, 0)
}

/// The first line of a text, empty where the text is empty.
pub open spec fn first_line_of(s: Seq<u8>) -> Seq<u8> {
    if s.len() > 0 {
        line_at(s, 0)
    } else {
        Seq::empty()
    }
}

/// `pieces` without an empty first piece and without an empty last piece.
pub open spec fn without_empty_ends(pieces: Seq<Seq<u8>>) -> Seq<Seq<u8>> {
    let rest = if pieces.len() > 0 && pieces[0].len() == 0 {
        pieces.drop_first()
    } else {
        pieces
    };
    if rest.len() > 0 && rest.last().len() == 0 {
        rest.drop_last()
    } else {
        rest
    }
}

/// Whether `needle` stands in `hay` at position `i`.
pub open spec fn occurs_at(hay: Seq<u8>, needle: Seq<u8>, i: int) -> bool {
    0 <= i && i + needle.len() <= hay.len() && hay.subrange(i, i + needle.len()) == needle
}

/// Whether `needle` stands somewhere in `hay`.
pub open spec fn has_substring(hay: Seq<u8>, needle: Seq<u8>) -> bool {
    exists|i: int| occurs_at(hay, needle, i)
}

/// The number a byte stands for as a digit: 0 to 9 for the decimal digits,
/// 10 to 35 for the letters of either case, 36 for any other byte.
pub open spec fn digit_number(b: u8) -> int {
    if 48 <= b && b <= 57 {
        b - 48
    } else if 97 <= b && b <= 122 {
        b - 97 + 10
    } else if 65 <= b && b <= 90 {
        b - 65 + 10
    } else {
        36
    }
}

/// Whether every byte of `s` is a digit of the given radix.
pub open spec fn all_digits(s: Seq<u8>, radix: int) -> bool {
    forall|i: int| 0 <= i < s.len() ==> digit_number(#[trigger] s[i]) < radix
}

/// The number that the digits `s` write in the given radix.
pub open spec fn digits_value(s: Seq<u8>, radix: int) -> int
    decreases s.len(),
{
    if s.len() == 0 {
        0
    } else {
        digits_value(s.drop_last(), radix) * radix + digit_number(s.last())
    }
}

/// `s` without a leading plus sign.
pub open spec fn unsigned_digits(s: Seq<u8>) -> Seq<u8> {
    if s.len() > 0 && s[0] == 43 {
        s.drop_first()
    } else {
        s
    }
}

/// The unsigned number that `s` writes in the given radix: an optional plus
/// sign, then at least one digit and nothing else, with a value that fits
/// in 64 bits.
pub open spec fn unsigned_value(s: Seq<u8>, radix: int) -> Option<u64> {
    let body = unsigned_digits(s);
    if body.len() > 0 && all_digits(body, radix) && digits_value(body, radix) <= u64::MAX {
        Some(digits_value(body, radix) as u64)
    } else {
        None
    }
}

/// The number that `s` writes, and 0 where it writes none.
pub open spec fn value_or_zero(s: Seq<u8>, radix: int) -> u64 {
    match unsigned_value(s, radix) {
        Some(v) => v,
        None => 0,
    }
}

/// `s` without any occurrence of the byte `b`.
pub open spec fn without_byte(s: Seq<u8>, b: u8) -> Seq<u8>
    decreases s.len(),
{
    if s.len() == 0 {
        Seq::empty()
    } else if s.last() == b {
        without_byte(s.drop_last(), b)
    } else {
        without_byte(s.drop_last(), b).push(s.last())
    }
}

/// What follows the last occurrence of the byte `sep` in `s`; all of `s`
/// where `sep` does not occur.
pub open spec fn after_last(s: Seq<u8>, sep: u8) -> Seq<u8>
    decreases s.len(),
{
    if s.len() == 0 {
        Seq::empty()
    } else if s.last() == sep {
        Seq::empty()
    } else {
        after_last(s.drop_last(), sep).push(s.last())
    }
}

/// The value of a prefix of a digit string is at most the value of the
/// whole, and neither is negative.
pub proof fn lemma_prefix_value(s: Seq<u8>, k: int, radix: int)
    requires
        0 <= k <= s.len(),
        radix >= 1,
    ensures
        0 <= digits_value(s.take(k), radix) <= digits_value(s, radix),
    decreases s.len(),
{
    if k == s.len() {
        assert(s.take(k) =~= s);
        if s.len() > 0 {
            lemma_prefix_value(s.drop_last(), k - 1, radix);
            let v = digits_value(s.drop_last(), radix);
            assert(s.drop_last().take(k - 1) =~= s.drop_last());
            assert(v * radix >= 0) by (nonlinear_arith)
                requires
                    v >= 0,
                    radix >= 1,
            ;
        }
    } else {
        lemma_prefix_value(s.drop_last(), k, radix);
        assert(s.drop_last().take(k) =~= s.take(k));
        let v = digits_value(s.drop_last(), radix);
        assert(v * radix >= v) by (nonlinear_arith)
            requires
                v >= 0,
                radix >= 1,
        ;
    }
}

/// Whether `w` is a word: at least one byte, and no whitespace among them.
pub open spec fn is_word(w: Seq<u8>) -> bool {
    w.len() > 0 && forall|j: int| 0 <= j < w.len() ==> !is_space(#[trigger] w[j])
}

/// Every field of a line is a word, and a line that ends in a byte that is
/// no whitespace has at least one field, the last of which ends in that byte.
pub proof fn lemma_fields_are_words(s: Seq<u8>)
    ensures
        forall|k: int| 0 <= k < split_fields(s).len() ==> is_word(#[trigger] split_fields(s)[k]),
        s.len() > 0 && !is_space(s.last()) ==> split_fields(s).len() > 0 && split_fields(
            s,
        ).last().last() == s.last(),
    decreases s.len(),
{
    if s.len() > 0 {
        let init = s.drop_last();
        let done = split_fields(init);
        let b = s.last();
        lemma_fields_are_words(init);
        if !is_space(b) {
            let all = split_fields(s);
            if init.len() > 0 && !is_space(init.last()) && done.len() > 0 {
                let word = done.last().push(b);
                assert(is_word(done.last()));
                assert(is_word(word)) by {
                    assert forall|j: int| 0 <= j < word.len() implies !is_space(
                        #[trigger] word[j],
                    ) by {
                        if j < done.last().len() {
                            assert(word[j] == done.last()[j]);
                        }
                    }
                }
                assert forall|k: int| 0 <= k < all.len() implies is_word(#[trigger] all[k]) by {
                    if k < done.len() - 1 {
                        assert(all[k] == done[k]);
                    } else {
                        assert(all[k] == word);
                    }
                }
            } else {
                assert(is_word(seq![b]));
                assert forall|k: int| 0 <= k < all.len() implies is_word(#[trigger] all[k]) by {
                    if k < done.len() {
                        assert(all[k] == done[k]);
                    } else {
                        assert(all[k] == seq![b]);
                    }
                }
            }
        }
    }
}

/// A line of whitespace alone has no field.
pub proof fn lemma_blank_line_has_no_field(s: Seq<u8>)
    requires
        forall|i: int| 0 <= i < s.len() ==> is_space(#[trigger] s[i]),
    ensures
        split_fields(s).len() == 0,
    decreases s.len(),
{
    if s.len() > 0 {
        lemma_blank_line_has_no_field(s.drop_last());
    }
}

/// Whether a byte is ASCII whitespace.
pub fn is_space_byte(b: u8) -> (r: bool)
    ensures
        r == is_space(b),
{
    b == 32 || (9 <= b && b <= 13)
}

/// Copies the bytes `a..b` of `bytes`.
fn copy_range(bytes: &[u8], a: usize, b: usize) -> (out: Vec<u8>)
    requires
        a <= b <= bytes@.len(),
    ensures
        out@ == bytes@.subrange(a as int, b as int),
{
    slice_to_vec(slice_subrange(bytes, a, b))
}

/// Splits a line into its whitespace-separated fields.
pub fn fields(line: &[u8]) -> (out: Vec<Vec<u8>>)
    ensures
        views(out) == split_fields(line@),
{
    let n: usize = line.len();
    let mut out: Vec<Vec<u8>> = Vec::new();
    let mut i: usize = 0;
    let mut start: usize = 0;
    let mut in_word: bool = false;
    assert(views(out) =~= split_fields(line@.take(0)));
    while i < n
        invariant
            i <= n,
            n == line@.len(),
            in_word == (i > 0 && !is_space(line@[i - 1])),
            in_word ==> start < i && split_fields(line@.take(i as int)) == views(out).push(
                line@.subrange(start as int, i as int),
            ),
            !in_word ==> split_fields(line@.take(i as int)) == views(out),
        decreases n - i,
    {
        let b: u8 = line[i];
        let ghost before = views(out);
        proof {
            assert(line@.take(i + 1).drop_last() =~= line@.take(i as int));
            assert(line@.take(i + 1).last() == b);
            if i > 0 {
                assert(line@.take(i as int).last() == line@[i - 1]);
            }
        }
        if is_space_byte(b) {
            if in_word {
                let word: Vec<u8> = copy_range(line, start, i);
                out.push(word);
                assert(views(out) =~= before.push(line@.subrange(start as int, i as int)));
            }
            in_word = false;
        } else {
            if !in_word {
                start = i;
                in_word = true;
                assert(line@.subrange(i as int, i + 1) =~= seq![b]);
            } else {
                let ghost done = before.push(line@.subrange(start as int, i as int));
                assert(line@.subrange(start as int, i as int).push(b) =~= line@.subrange(
                    start as int,
                    i + 1,
                ));
                assert(done.update(done.len() - 1, done.last().push(b)) =~= before.push(
                    line@.subrange(start as int, i + 1),
                ));
            }
        }
        i += 1;
    }
    assert(line@.take(n as int) =~= line@);
    if in_word {
        let ghost before = views(out);
        let word: Vec<u8> = copy_range(line, start, n);
        out.push(word);
        assert(views(out) =~= before.push(line@.subrange(start as int, n as int)));
    }
    out
}

/// The position of the line feed that ends the line beginning at `start`,
/// or the length of the text where no line feed follows.
pub fn line_end(text: &[u8], start: usize) -> (e: usize)
    requires
        start <= text@.len(),
    ensures
        e == start + line_len(text@, start as int),
        start <= e <= text@.len(),
{
    let n: usize = text.len();
    let mut j: usize = start;
    while j < n && text[j] != 10
        invariant
            start <= j <= n,
            n == text@.len(),
            line_len(text@, start as int) == (j - start) + line_len(text@, j as int),
        decreases n - j,
    {
        j += 1;
    }
    j
}

/// Copies the line that begins at `start` and ends at `e`.
fn copy_line(text: &[u8], start: usize, e: usize) -> (line: Vec<u8>)
    requires
        start <= e <= text@.len(),
        e == start + line_len(text@, start as int),
    ensures
        line@ == line_at(text@, start as int),
{
    if e < text.len() && e > start && text[e - 1] == 13 {
        copy_range(text, start, e - 1)
    } else {
        copy_range(text, start, e)
    }
}

/// Splits a text into its lines.
pub fn lines(text: &[u8]) -> (out: Vec<Vec<u8>>)
    ensures
        views(out) == split_lines(text@),
{
    let n: usize = text.len();
    let mut out: Vec<Vec<u8>> = Vec::new();
    let mut start: usize = 0;
    let mut more: bool = n > 0;
    assert(views(out) + lines_from(text@, 0) =~= lines_from(text@, 0));
    while more
        invariant
            n == text@.len(),
            more ==> start < n,
            more ==> split_lines(text@) == views(out) + lines_from(text@, start as int),
            !more ==> split_lines(text@) == views(out),
        decreases
                if more {
                    n - start + 1
                } else {
                    0
                },
    {
        let ghost before = views(out);
        let e: usize = line_end(text, start);
        let line: Vec<u8> = copy_line(text, start, e);
        out.push(line);
        assert(views(out) =~= before.push(line_at(text@, start as int)));
        if e < n && e + 1 < n {
            assert(before + (seq![line_at(text@, start as int)] + lines_from(text@, e + 1))
                =~= views(out) + lines_from(text@, e + 1));
            start = e + 1;
        } else {
            assert(before + seq![line_at(text@, start as int)] =~= views(out));
            more = false;
        }
    }
    out
}

/// The first line of a text, empty where the text is empty.
pub fn first_line(text: &[u8]) -> (line: Vec<u8>)
    ensures
        line@ == first_line_of(text@),
{
    if text.len() > 0 {
        let e: usize = line_end(text, 0);
        copy_line(text, 0, e)
    } else {
        Vec::new()
    }
}

/// Drops an empty first piece and an empty last piece. A text cut at
/// every run of separators has such a piece exactly where it begins or ends
/// with a separator.
pub fn drop_empty_ends(pieces: Vec<Vec<u8>>) -> (out: Vec<Vec<u8>>)
    ensures
        views(out) == without_empty_ends(views(pieces)),
{
    let mut out: Vec<Vec<u8>> = pieces;
    if out.len() > 0 && out[0].len() == 0 {
        let _ = out.remove(0);
        assert(views(out) =~= views(pieces).drop_first());
    }
    let ghost rest = views(out);
    let n: usize = out.len();
    if n > 0 && out[n - 1].len() == 0 {
        let _ = out.pop();
        assert(views(out) =~= rest.drop_last());
    }
    out
}

/// Whether `needle` stands in `hay` at position `i`.
pub fn matches_at(hay: &[u8], needle: &[u8], i: usize) -> (r: bool)
    requires
        i + needle@.len() <= hay@.len(),
    ensures
        r == occurs_at(hay@, needle@, i as int),
{
    let n: usize = hay.len();
    let m: usize = needle.len();
    let mut k: usize = 0;
    while k < m
        invariant
            k <= m,
            m == needle@.len(),
            n == hay@.len(),
            i + m <= n,
            forall|j: int| 0 <= j < k ==> hay@[i + j] == needle@[j],
        decreases m - k,
    {
        if hay[i + k] != needle[k] {
            assert(hay@.subrange(i as int, i + m)[k as int] != needle@[k as int]);
            return false;
        }
        k += 1;
    }
    assert(hay@.subrange(i as int, i + m) =~= needle@);
    true
}

/// Whether `hay` begins with `prefix`.
pub fn starts_with(hay: &[u8], prefix: &[u8]) -> (r: bool)
    ensures
        r == occurs_at(hay@, prefix@, 0),
{
    if prefix.len() > hay.len() {
        false
    } else {
        matches_at(hay, prefix, 0)
    }
}

/// Whether `needle` stands somewhere in `hay`.
pub fn contains(hay: &[u8], needle: &[u8]) -> (r: bool)
    ensures
        r == has_substring(hay@, needle@),
{
    let n: usize = hay.len();
    let m: usize = needle.len();
    if m > n {
        return false;
    }
    let last: usize = n - m;
    let mut i: usize = 0;
    loop
        invariant
            i <= last,
            last == n - m,
            n == hay@.len(),
            m == needle@.len(),
            forall|j: int| 0 <= j < i ==> !occurs_at(hay@, needle@, j),
        decreases last - i,
    {
        if matches_at(hay, needle, i) {
            return true;
        }
        if i == last {
            return false;
        }
        i += 1;
    }
}

/// Whether two byte strings are the same.
pub fn same_bytes(a: &[u8], b: &[u8]) -> (r: bool)
    ensures
        r == (a@ == b@),
{
    if a.len() != b.len() {
        return false;
    }
    let r: bool = matches_at(a, b, 0);
    assert(a@.subrange(0, a@.len() as int) =~= a@);
    r
}

/// Copies `s` without any occurrence of the byte `b`.
pub fn remove_byte(s: &[u8], b: u8) -> (out: Vec<u8>)
    ensures
        out@ == without_byte(s@, b),
{
    let n: usize = s.len();
    let mut out: Vec<u8> = Vec::new();
    let mut i: usize = 0;
    assert(s@.take(0) =~= Seq::<u8>::empty());
    while i < n
        invariant
            i <= n,
            n == s@.len(),
            out@ == without_byte(s@.take(i as int), b),
        decreases n - i,
    {
        assert(s@.take(i + 1).drop_last() =~= s@.take(i as int));
        if s[i] != b {
            out.push(s[i]);
        }
        i += 1;
    }
    assert(s@.take(n as int) =~= s@);
    out
}

/// Copies what follows the last occurrence of the byte `sep` in `s`.
pub fn tail_after(s: &[u8], sep: u8) -> (out: Vec<u8>)
    ensures
        out@ == after_last(s@, sep),
{
    let n: usize = s.len();
    let mut start: usize = 0;
    let mut i: usize = 0;
    assert(s@.take(0) =~= s@.subrange(0, 0));
    while i < n
        invariant
            start <= i <= n,
            n == s@.len(),
            after_last(s@.take(i as int), sep) == s@.subrange(start as int, i as int),
        decreases n - i,
    {
        assert(s@.take(i + 1).drop_last() =~= s@.take(i as int));
        if s[i] == sep {
            start = i + 1;
            assert(s@.subrange(i + 1, i + 1) =~= Seq::<u8>::empty());
        } else {
            assert(s@.subrange(start as int, i as int).push(s@[i as int]) =~= s@.subrange(
                start as int,
                i + 1,
            ));
        }
        i += 1;
    }
    assert(s@.take(n as int) =~= s@);
    copy_range(s, start, n)
}

/// The number a byte stands for as a digit.
pub fn digit_of(b: u8) -> (d: u64)
    ensures
        d == digit_number(b),
{
    if 48 <= b && b <= 57 {
        (b - 48) as u64
    } else if 97 <= b && b <= 122 {
        (b - 97 + 10) as u64
    } else if 65 <= b && b <= 90 {
        (b - 65 + 10) as u64
    } else {
        36
    }
}

/// Reads an unsigned number in the given radix.
pub fn parse_unsigned(s: &[u8], radix: u64) -> (r: Option<u64>)
    requires
        2 <= radix <= 36,
    ensures
        r == unsigned_value(s@, radix as int),
{
    let n: usize = s.len();
    let start: usize = if n > 0 && s[0] == 43 {
        1
    } else {
        0
    };
    let ghost body = unsigned_digits(s@);
    assert(body =~= s@.subrange(start as int, n as int));
    if start == n {
        return None;
    }
    let mut acc: u64 = 0;
    let mut i: usize = start;
    assert(body.take(0) =~= Seq::<u8>::empty());
    while i < n
        invariant
            start <= i <= n,
            n == s@.len(),
            2 <= radix <= 36,
            body == s@.subrange(start as int, n as int),
            body == unsigned_digits(s@),
            all_digits(body.take(i - start), radix as int),
            acc == digits_value(body.take(i - start), radix as int),
        decreases n - i,
    {
        let d: u64 = digit_of(s[i]);
        let ghost next = body.take(i - start + 1);
        proof {
            assert(next.drop_last() =~= body.take(i - start));
            assert(next.last() == s@[i as int]);
            assert(body[i - start] == s@[i as int]);
            lemma_prefix_value(body, i - start + 1, radix as int);
        }
        if d >= radix {
            assert(!all_digits(body, radix as int));
            return None;
        }
        assert(digits_value(next, radix as int) == acc * radix + d);
        let shifted: u64 = match acc.checked_mul(radix) {
            Some(v) => v,
            None => {
                return None;
            },
        };
        acc = match shifted.checked_add(d) {
            Some(v) => v,
            None => {
                return None;
            },
        };
        i += 1;
        assert forall|k: int| 0 <= k < next.len() implies digit_number(#[trigger] next[k])
            < radix by {
            if k < next.len() - 1 {
                assert(next[k] == body.take(i - start - 1)[k]);
            }
        }
    }
    assert(body.take(n - start) =~= body);
    Some(acc)
}

/// Reads an unsigned decimal number.
pub fn parse_decimal(s: &[u8]) -> (r: Option<u64>)
    ensures
        r == unsigned_value(s@, 10),
{
    parse_unsigned(s, 10)
}

/// Reads an unsigned hexadecimal number, without any prefix.
pub fn parse_hex(s: &[u8]) -> (r: Option<u64>)
    ensures
        r == unsigned_value(s@, 16),
{
    parse_unsigned(s, 16)
}

/// Reads an unsigned decimal number, and gives 0 where there is none.
pub fn decimal_or_zero(s: &[u8]) -> (v: u64)
    ensures
        v == value_or_zero(s@, 10),
{
    match parse_unsigned(s, 10) {
        Some(v) => v,
        None => 0,
    }
}

} // verus!

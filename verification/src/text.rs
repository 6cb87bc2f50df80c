//! Character-level helpers on strings: substring search, decimal numbers,
//! joining, and path composition.

use vstd::prelude::*;
use vstd::string::*;

verus! {

/// `needle` occurs in `hay` as a contiguous run of characters.
pub open spec fn occurs_in(hay: Seq<char>, needle: Seq<char>) -> bool {
    exists|i: int|
        0 <= i && i + needle.len() <= hay.len() && #[trigger] hay.subrange(i, i + needle.len())
            == needle
}

/// The characters of `s`, in order.
pub fn chars_of(s: &str) -> (v: Vec<char>)
    ensures
        v@ == s@,
{
    let n = s.unicode_len();
    let mut v: Vec<char> = Vec::new();
    let mut i: usize = 0;
    while i < n
        invariant
            n == s@.len(),
            i <= n,
            v@ == s@.take(i as int),
        decreases n - i,
    {
        v.push(s.get_char(i));
        i += 1;
        assert(v@ =~= s@.take(i as int));
    }
    assert(v@ =~= s@);
    v
}

fn occurs_at(hay: &Vec<char>, needle: &Vec<char>, i: usize) -> (r: bool)
    requires
        i + needle.len() <= hay.len(),
    ensures
        r == (hay@.subrange(i as int, i + needle.len()) == needle@),
{
    let mut j: usize = 0;
    while j < needle.len()
        invariant
            i + needle.len() <= hay.len(),
            j <= needle.len(),
            forall|k: int| 0 <= k < j ==> hay@[i + k] == needle@[k],
        decreases needle.len() - j,
    {
        if hay[i + j] != needle[j] {
            assert(hay@.subrange(i as int, i + needle.len())[j as int] != needle@[j as int]);
            return false;
        }
        j += 1;
    }
    assert(hay@.subrange(i as int, i + needle.len()) =~= needle@);
    true
}

/// Whether `needle` occurs in `hay` (what `str::contains` answers for a
/// string pattern).
pub fn str_contains(hay: &str, needle: &str) -> (r: bool)
    ensures
        r == occurs_in(hay@, needle@),
{
    let h = chars_of(hay);
    let n = chars_of(needle);
    if n.len() == 0 {
        assert(hay@.subrange(0, 0 + needle@.len() as int) =~= needle@);
        return true;
    }
    if n.len() > h.len() {
        return false;
    }
    let last: usize = h.len() - n.len();
    let mut i: usize = 0;
    while i <= last
        invariant
            last == h@.len() - n@.len(),
            1 <= n@.len() <= h@.len(),
            last < usize::MAX,
            h@ == hay@,
            n@ == needle@,
            forall|k: int| 0 <= k < i ==> #[trigger] h@.subrange(k, k + n@.len()) != n@,
        decreases last + 1 - i,
    {
        if occurs_at(&h, &n, i) {
            return true;
        }
        i += 1;
    }
    false
}

/// Whether two strings hold the same characters.
pub fn str_equal(a: &str, b: &str) -> (r: bool)
    ensures
        r == (a@ == b@),
{
    a.to_owned() == b.to_owned()
}

/// `parts` joined by `sep`.
pub open spec fn join(parts: Seq<Seq<char>>, sep: Seq<char>) -> Seq<char>
    decreases parts.len(),
{
    if parts.len() == 0 {
        Seq::empty()
    } else if parts.len() == 1 {
        parts[0]
    } else {
        join(parts.drop_last(), sep) + sep + parts.last()
    }
}

/// The ASCII character of the decimal digit `d`.
pub open spec fn digit_char(d: nat) -> char {
    (d + 48) as char
}

/// The decimal notation of `n`, without sign or leading zeros.
pub open spec fn decimal(n: nat) -> Seq<char>
    decreases n,
{
    if n < 10 {
        seq![digit_char(n)]
    } else {
        decimal(n / 10).push(digit_char(n % 10))
    }
}

pub open spec fn is_ascii_digit(c: char) -> bool {
    '0' <= c && c <= '9'
}

pub open spec fn all_ascii_digits(s: Seq<char>) -> bool {
    forall|i: int| 0 <= i < s.len() ==> is_ascii_digit(#[trigger] s[i])
}

/// The number that a run of ASCII digits denotes.
pub open spec fn digits_value(s: Seq<char>) -> nat
    decreases s.len(),
{
    if s.len() == 0 {
        0
    } else {
        digits_value(s.drop_last()) * 10 + ((s.last() as int - 48) as nat)
    }
}

/// The digits of an unsigned number in text: a leading `+` is dropped.
pub open spec fn unsigned_digits(s: Seq<char>) -> Seq<char> {
    if s.len() > 0 && s[0] == '+' {
        s.drop_first()
    } else {
        s
    }
}

/// The number that `s` denotes as an unsigned decimal: an optional `+`, then
/// one or more ASCII digits.
pub open spec fn parse_unsigned(s: Seq<char>) -> Option<nat> {
    let d = unsigned_digits(s);
    if d.len() > 0 && all_ascii_digits(d) {
        Some(digits_value(d))
    } else {
        None
    }
}

/// What `str::parse::<usize>` gives: the number when `s` is an unsigned
/// decimal that fits in a `usize`.
pub open spec fn parse_usize_spec(s: Seq<char>) -> Option<usize> {
    match parse_unsigned(s) {
        Some(v) => if v <= usize::MAX {
            Some(v as usize)
        } else {
            None
        },
        None => None,
    }
}

fn digit_str(d: usize) -> (r: &'static str)
    requires
        d < 10,
    ensures
        r@ == seq![digit_char(d as nat)],
{
    proof {
        reveal_strlit("0");
        reveal_strlit("1");
        reveal_strlit("2");
        reveal_strlit("3");
        reveal_strlit("4");
        reveal_strlit("5");
        reveal_strlit("6");
        reveal_strlit("7");
        reveal_strlit("8");
        reveal_strlit("9");
    }
    match d {
        0 => "0",
        1 => "1",
        2 => "2",
        3 => "3",
        4 => "4",
        5 => "5",
        6 => "6",
        7 => "7",
        8 => "8",
        _ => "9",
    }
}

/// Appends the decimal notation of `n` to `out`.
pub fn append_decimal(out: &mut String, n: usize)
    ensures
        final(out)@ == old(out)@ + decimal(n as nat),
    decreases n,
{
    if n >= 10 {
        append_decimal(out, n / 10);
    }
    out.append(digit_str(n % 10));
    proof {
        if n < 10 {
            assert(old(out)@ + decimal(n as nat) =~= old(out)@ + seq![digit_char(n as nat)]);
        } else {
            assert(decimal(n as nat) =~= decimal((n / 10) as nat) + seq![
                digit_char((n % 10) as nat),
            ]);
        }
    }
}

/// The decimal notation of `n` (what `n.to_string()` gives).
pub fn usize_to_decimal(n: usize) -> (r: String)
    ensures
        r@ == decimal(n as nat),
{
    let mut out = String::new();
    append_decimal(&mut out, n);
    assert(out@ =~= decimal(n as nat));
    out
}

proof fn lemma_digits_value_prefix_le(s: Seq<char>, k: int)
    requires
        0 <= k <= s.len(),
        all_ascii_digits(s),
    ensures
        digits_value(s.take(k)) <= digits_value(s),
    decreases s.len(),
{
    if k < s.len() {
        assert(all_ascii_digits(s.drop_last()));
        assert(s.drop_last().take(k) =~= s.take(k));
        lemma_digits_value_prefix_le(s.drop_last(), k);
        assert(digits_value(s.drop_last()) <= digits_value(s)) by (nonlinear_arith)
            requires
                digits_value(s) == digits_value(s.drop_last()) * 10 + ((s.last() as int
                    - 48) as nat),
        ;
    } else {
        assert(s.take(k) =~= s);
    }
}

/// The number that `s` denotes (what `s.parse::<usize>()` gives): an optional
/// `+` then ASCII digits, whose value fits in a `usize`; `None` otherwise.
pub fn parse_usize(s: &str) -> (r: Option<usize>)
    ensures
        r == parse_usize_spec(s@),
{
    let cs = chars_of(s);
    let mut start: usize = 0;
    if cs.len() > 0 && cs[0] == '+' {
        start = 1;
    }
    let ghost d = unsigned_digits(s@);
    assert(d =~= cs@.skip(start as int));
    if start >= cs.len() {
        return None;
    }
    let mut value: usize = 0;
    let mut i: usize = start;
    while i < cs.len()
        invariant
            cs@ == s@,
            d == unsigned_digits(s@),
            d == cs@.skip(start as int),
            start <= i <= cs.len(),
            d.len() > 0,
            all_ascii_digits(d.take(i - start)),
            value as nat == digits_value(d.take(i - start)),
        decreases cs.len() - i,
    {
        let c = cs[i];
        if !('0' <= c && c <= '9') {
            assert(d[i - start] == c);
            assert(!is_ascii_digit(d[i - start]));
            assert(!all_ascii_digits(d));
            return None;
        }
        let digit: usize = ((c as u32) - 48) as usize;
        assert(d.take(i + 1 - start).drop_last() =~= d.take(i - start));
        assert(d.take(i + 1 - start).last() == c);
        assert(all_ascii_digits(d.take(i + 1 - start)));
        match value.checked_mul(10) {
            Some(v10) => match v10.checked_add(digit) {
                Some(nv) => {
                    value = nv;
                },
                None => {
                    proof {
                        assert(digits_value(d.take(i + 1 - start)) == value * 10 + digit);
                        if all_ascii_digits(d) {
                            lemma_digits_value_prefix_le(d, i + 1 - start);
                        }
                    }
                    return None;
                },
            },
            None => {
                proof {
                    assert(digits_value(d.take(i + 1 - start)) >= value * 10) by (nonlinear_arith)
                        requires
                            digits_value(d.take(i + 1 - start)) == value * 10 + ((c as int
                                - 48) as nat),
                    ;
                    if all_ascii_digits(d) {
                        lemma_digits_value_prefix_le(d, i + 1 - start);
                    }
                }
                return None;
            },
        }
        i += 1;
    }
    assert(d.take(cs.len() - start) =~= d);
    Some(value)
}

proof fn lemma_decimal_digits(n: nat)
    ensures
        decimal(n).len() > 0,
        all_ascii_digits(decimal(n)),
        digits_value(decimal(n)) == n,
        decimal(n)[0] != '+',
    decreases n,
{
    assert(((n % 10 + 48) as char) as int == n % 10 + 48);
    if n < 10 {
        assert(decimal(n).drop_last() =~= Seq::<char>::empty());
        assert(decimal(n).last() == digit_char(n));
        assert(((n + 48) as char) as int == n + 48);
        assert(digits_value(Seq::<char>::empty()) == 0);
        assert(digits_value(decimal(n)) == digits_value(decimal(n).drop_last()) * 10 + ((
        decimal(n).last() as int - 48) as nat));
    } else {
        lemma_decimal_digits(n / 10);
        assert(decimal(n).drop_last() =~= decimal(n / 10));
        assert(decimal(n).last() == digit_char(n % 10));
        assert(n == (n / 10) * 10 + n % 10);
        assert(digits_value(decimal(n)) == digits_value(decimal(n / 10)) * 10 + ((decimal(n).last() as int - 48) as nat));
        assert((decimal(n).last() as int - 48) as nat == n % 10);
        let s = decimal(n);
        assert forall|i: int| 0 <= i < s.len() implies is_ascii_digit(#[trigger] s[i]) by {
            if i < s.len() - 1 {
                assert(s[i] == decimal(n / 10)[i]);
            }
        }
    }
}

/// Reading back the decimal notation of a number gives the number.
pub proof fn lemma_parse_decimal_roundtrip(n: usize)
    ensures
        parse_usize_spec(decimal(n as nat)) == Some(n),
{
    lemma_decimal_digits(n as nat);
}

/// `base` extended by the relative path `part`, as `PathBuf::push` does on
/// Unix: a `/` is put between them unless `base` is empty or already ends
/// with one.
pub open spec fn path_join(base: Seq<char>, part: Seq<char>) -> Seq<char> {
    if base.len() == 0 || base.last() == '/' {
        base + part
    } else {
        base + seq!['/'] + part
    }
}

/// `base` extended by the relative path `part` (see [`path_join`]).
pub fn join_path(base: &str, part: &str) -> (r: String)
    ensures
        r@ == path_join(base@, part@),
{
    let n = base.unicode_len();
    let mut out = base.to_owned();
    if n > 0 && base.get_char(n - 1) != '/' {
        proof {
            reveal_strlit("/");
        }
        out.append("/");
    }
    out.append(part);
    out
}

/// Every one of `tags` occurs in `s`.
pub open spec fn contains_all(s: Seq<char>, tags: Seq<Seq<char>>) -> bool {
    forall|i: int| 0 <= i < tags.len() ==> occurs_in(s, #[trigger] tags[i])
}

/// The characters of each string in `parts`.
pub open spec fn str_views(parts: Seq<&str>) -> Seq<Seq<char>> {
    parts.map_values(|p: &str| p@)
}

/// Appends `parts` joined by `sep` to `out`.
pub fn append_joined(out: &mut String, parts: &[&str], sep: &str)
    ensures
        final(out)@ == old(out)@ + join(str_views(parts@), sep@),
{
    let ghost start = out@;
    let ghost ps = str_views(parts@);
    let mut k: usize = 0;
    while k < parts.len()
        invariant
            k <= parts@.len(),
            ps == str_views(parts@),
            out@ == start + join(ps.take(k as int), sep@),
        decreases parts.len() - k,
    {
        if k > 0 {
            out.append(sep);
        }
        out.append(parts[k]);
        proof {
            let t = ps.take(k + 1);
            assert(t.drop_last() =~= ps.take(k as int));
            assert(t.last() == parts@[k as int]@);
            if k == 0 {
                assert(ps.take(0) =~= Seq::<Seq<char>>::empty());
                assert(join(ps.take(0), sep@) =~= Seq::<char>::empty());
            }
        }
        k += 1;
    }
    assert(ps.take(parts.len() as int) =~= ps);
}


/// Joining two non-empty lists is joining each of them and putting one
/// separator between the two.
pub proof fn lemma_join_concat(a: Seq<Seq<char>>, b: Seq<Seq<char>>, sep: Seq<char>)
    requires
        a.len() > 0,
        b.len() > 0,
    ensures
        join(a + b, sep) == join(a, sep) + sep + join(b, sep),
    decreases b.len(),
{
    assert((a + b).drop_last() =~= a + b.drop_last());
    assert((a + b).last() == b.last());
    if b.len() == 1 {
        assert(a + b.drop_last() =~= a);
    } else {
        lemma_join_concat(a, b.drop_last(), sep);
        assert(join(a + b, sep) =~= join(a, sep) + sep + join(b, sep));
    }
}

/// `needle`, found at position `i` of `hay`, occurs in `hay`.
pub proof fn lemma_occurs_at(hay: Seq<char>, needle: Seq<char>, i: int)
    requires
        0 <= i,
        i + needle.len() <= hay.len(),
        hay.subrange(i, i + needle.len()) == needle,
    ensures
        occurs_in(hay, needle),
{
}

/// What occurs in a part occurs in the whole.
pub proof fn lemma_occurs_in_concat(x: Seq<char>, y: Seq<char>, needle: Seq<char>)
    ensures
        occurs_in(x, needle) ==> occurs_in(x + y, needle),
        occurs_in(y, needle) ==> occurs_in(x + y, needle),
{
    if occurs_in(x, needle) {
        let i = choose|i: int|
            0 <= i && i + needle.len() <= x.len() && #[trigger] x.subrange(i, i + needle.len())
                == needle;
        assert((x + y).subrange(i, i + needle.len()) =~= x.subrange(i, i + needle.len()));
        lemma_occurs_at(x + y, needle, i);
    }
    if occurs_in(y, needle) {
        let i = choose|i: int|
            0 <= i && i + needle.len() <= y.len() && #[trigger] y.subrange(i, i + needle.len())
                == needle;
        assert((x + y).subrange(x.len() + i, x.len() + i + needle.len()) =~= y.subrange(
            i,
            i + needle.len(),
        ));
        lemma_occurs_at(x + y, needle, x.len() + i);
    }
}

/// A string occurs in itself.
pub proof fn lemma_occurs_in_self(s: Seq<char>)
    ensures
        occurs_in(s, s),
{
    assert(s.subrange(0, s.len() as int) =~= s);
    lemma_occurs_at(s, s, 0);
}

/// What occurs in a string that occurs in `hay` occurs in `hay`.
pub proof fn lemma_occurs_in_trans(hay: Seq<char>, mid: Seq<char>, needle: Seq<char>)
    requires
        occurs_in(hay, mid),
        occurs_in(mid, needle),
    ensures
        occurs_in(hay, needle),
{
    let i = choose|i: int|
        0 <= i && i + mid.len() <= hay.len() && #[trigger] hay.subrange(i, i + mid.len()) == mid;
    let j = choose|j: int|
        0 <= j && j + needle.len() <= mid.len() && #[trigger] mid.subrange(j, j + needle.len())
            == needle;
    assert(hay.subrange(i + j, i + j + needle.len()) =~= mid.subrange(j, j + needle.len()));
    lemma_occurs_at(hay, needle, i + j);
}

proof fn lemma_join_split_last(s: Seq<Seq<char>>, sep: Seq<char>) -> (y: Seq<char>)
    requires
        s.len() > 0,
    ensures
        join(s, sep) == y + s.last(),
{
    if s.len() == 1 {
        assert(join(s, sep) =~= Seq::<char>::empty() + s.last());
        Seq::empty()
    } else {
        join(s.drop_last(), sep) + sep
    }
}

/// Every part occurs in the joined string.
pub proof fn lemma_part_occurs_in_join(parts: Seq<Seq<char>>, sep: Seq<char>, k: int)
    requires
        0 <= k < parts.len(),
    ensures
        occurs_in(join(parts, sep), parts[k]),
    decreases parts.len(),
{
    lemma_occurs_in_self(parts[k]);
    if parts.len() == 1 {
    } else if k == parts.len() - 1 {
        lemma_occurs_in_concat(join(parts.drop_last(), sep) + sep, parts[k], parts[k]);
    } else {
        lemma_part_occurs_in_join(parts.drop_last(), sep, k);
        lemma_occurs_in_concat(join(parts.drop_last(), sep), sep + parts.last(), parts[k]);
        assert(join(parts, sep) =~= join(parts.drop_last(), sep) + (sep + parts.last()));
    }
}

/// Each two neighbouring parts stand in the joined string with exactly the
/// separator between them.
pub proof fn lemma_neighbours_in_join(parts: Seq<Seq<char>>, sep: Seq<char>, k: int)
    requires
        0 <= k,
        k + 1 < parts.len(),
    ensures
        occurs_in(join(parts, sep), parts[k] + sep + parts[k + 1]),
    decreases parts.len(),
{
    let pair = parts[k] + sep + parts[k + 1];
    lemma_occurs_in_self(pair);
    if k + 1 == parts.len() - 1 {
        let d = parts.drop_last();
        let y = lemma_join_split_last(d, sep);
        assert(d.last() == parts[k]);
        assert(join(parts, sep) =~= y + pair);
        lemma_occurs_in_concat(y, pair, pair);
    } else {
        lemma_neighbours_in_join(parts.drop_last(), sep, k);
        assert(parts.drop_last()[k] == parts[k] && parts.drop_last()[k + 1] == parts[k + 1]);
        lemma_occurs_in_concat(join(parts.drop_last(), sep), sep + parts.last(), pair);
        assert(join(parts, sep) =~= join(parts.drop_last(), sep) + (sep + parts.last()));
    }
}

} // verus!

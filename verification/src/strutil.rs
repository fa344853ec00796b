use vstd::prelude::*;
use vstd::string::StringExecFns;

verus! {

broadcast use vstd::seq_lib::group_seq_properties;

/// Relies on `String::push`: appends exactly the given character.
#[verifier::external_body]
pub fn string_push(s: &mut String, c: char)
    ensures
        final(s)@ == old(s)@.push(c),
{
    s.push(c);
}

/// Holds of ASCII decimal digits.
pub open spec fn is_digit(c: char) -> bool {
    '0' <= c && c <= '9'
}

/// The numeric value of a decimal digit.
pub open spec fn digit_val(c: char) -> int {
    c as u32 - '0' as u32
}

/// Holds when every character of `s` is a decimal digit.
pub open spec fn all_digits(s: Seq<char>) -> bool {
    forall|i: int| 0 <= i < s.len() ==> is_digit(#[trigger] s[i])
}

/// The value of a digit string read as a decimal number.
pub open spec fn dec_value(s: Seq<char>) -> int
    decreases s.len(),
{
    if s.len() == 0 {
        0
    } else {
        dec_value(s.drop_last()) * 10 + digit_val(s.last())
    }
}

/// A digit string never denotes a negative number.
pub proof fn lemma_dec_value_nonneg(s: Seq<char>)
    requires
        all_digits(s),
    ensures
        dec_value(s) >= 0,
    decreases s.len(),
{
    if s.len() > 0 {
        assert(all_digits(s.drop_last())) by {
            assert(forall|i: int| 0 <= i < s.len() - 1 ==> is_digit(#[trigger] s[i]));
        }
        lemma_dec_value_nonneg(s.drop_last());
    }
}

/// Extending a digit string on the right never shrinks its value.
pub proof fn lemma_dec_value_prefix_le(s: Seq<char>, i: int)
    requires
        all_digits(s),
        0 <= i <= s.len(),
    ensures
        dec_value(s.take(i)) <= dec_value(s),
    decreases s.len() - i,
{
    if i < s.len() {
        lemma_dec_value_prefix_le(s, i + 1);
        let t = s.take(i + 1);
        assert(t.drop_last() =~= s.take(i));
        assert(all_digits(s.take(i)));
        lemma_dec_value_nonneg(s.take(i));
        assert(dec_value(t) == dec_value(s.take(i)) * 10 + digit_val(t.last()));
    } else {
        assert(s.take(i) =~= s);
    }
}

/// Reads a decimal digit string as a 16-bit number.
///
/// Succeeds exactly on non-empty all-digit strings whose value fits;
/// a sign, whitespace or any other character is rejected.
pub fn parse_u16(s: &str) -> (r: Option<u16>)
    ensures
        r is Some <==> (s@.len() > 0 && all_digits(s@) && dec_value(s@) <= 65535),
        r matches Some(v) ==> v == dec_value(s@),
{
    let len = s.unicode_len();
    if len == 0 {
        return None;
    }

    let mut acc: u32 = 0;
    let mut i: usize = 0;
    while i < len
        invariant
            0 <= i <= len,
            len == s@.len(),
            all_digits(s@.take(i as int)),
            acc == dec_value(s@.take(i as int)),
            acc <= 65535,
        decreases len - i,
    {
        let c = s.get_char(i);
        if !('0' <= c && c <= '9') {
            proof {
                assert(!is_digit(s@[i as int]));
            }
            return None;
        }
        let d: u32 = (c as u32) - ('0' as u32);
        proof {
            assert(s@.take(i + 1).drop_last() =~= s@.take(i as int));
            assert(s@.take(i + 1).last() == s@[i as int]);
        }
        acc = acc * 10 + d;
        if acc > 65535 {
            proof {
                assert(dec_value(s@.take(i + 1)) > 65535);
                if all_digits(s@) {
                    lemma_dec_value_prefix_le(s@, i + 1);
                }
            }
            return None;
        }
        i += 1;
    }
    proof {
        assert(s@.take(len as int) =~= s@);
    }
    Some(acc as u16)
}

/// The lower-case form of an ASCII character; other characters are unchanged.
pub open spec fn lower_char(c: char) -> char {
    if 'A' <= c && c <= 'Z' {
        ((c as u8) + 32) as char
    } else {
        c
    }
}

/// `s` mapped character by character through [`lower_char`].
pub open spec fn lower_chars(s: Seq<char>) -> Seq<char> {
    s.map_values(|c: char| lower_char(c))
}

/// Lower-cases the ASCII letters of a string, leaving the rest unchanged.
pub fn ascii_lowercase(s: &str) -> (r: String)
    ensures
        r@ == lower_chars(s@),
{
    let len = s.unicode_len();
    let mut r = String::new();
    let mut i: usize = 0;
    while i < len
        invariant
            0 <= i <= len,
            len == s@.len(),
            r@ == lower_chars(s@).take(i as int),
        decreases len - i,
    {
        let c = s.get_char(i);
        let l: char = if 'A' <= c && c <= 'Z' {
            ((c as u8) + 32) as char
        } else {
            c
        };
        string_push(&mut r, l);
        proof {
            assert(lower_chars(s@).take(i + 1) =~= lower_chars(s@).take(i as int).push(
                lower_char(s@[i as int]),
            ));
        }
        i += 1;
    }
    proof {
        assert(lower_chars(s@).take(len as int) =~= lower_chars(s@));
    }
    r
}

/// The decimal digit with value `d`.
pub open spec fn digit_char(d: int) -> char {
    seq!['0', '1', '2', '3', '4', '5', '6', '7', '8', '9'][d]
}

/// The decimal digit string of a non-negative number, most significant first.
pub open spec fn dec_digits(n: int) -> Seq<char>
    decreases n,
{
    if n < 10 {
        seq![digit_char(n)]
    } else {
        dec_digits(n / 10).push(digit_char(n % 10))
    }
}

fn digit_to_char(d: u64) -> (c: char)
    requires
        d < 10,
    ensures
        c == digit_char(d as int),
{
    if d == 0 {
        '0'
    } else if d == 1 {
        '1'
    } else if d == 2 {
        '2'
    } else if d == 3 {
        '3'
    } else if d == 4 {
        '4'
    } else if d == 5 {
        '5'
    } else if d == 6 {
        '6'
    } else if d == 7 {
        '7'
    } else if d == 8 {
        '8'
    } else {
        '9'
    }
}

/// Writes a number in decimal.
pub fn u64_to_string(n: u64) -> (r: String)
    ensures
        r@ == dec_digits(n as int),
{
    let mut m: u64 = n;
    let mut digits: Vec<char> = Vec::new();
    digits.push(digit_to_char(m % 10));
    proof {
        assert(digits@.reverse() =~= seq![digit_char(n as int % 10)]);
        if n < 10 {
            assert(dec_digits(n as int) =~= Seq::<char>::empty() + digits@.reverse());
        } else {
            assert(dec_digits(n as int) =~= dec_digits(n as int / 10) + digits@.reverse());
        }
    }
    m = m / 10;
    while m > 0
        invariant
            dec_digits(n as int) =~= (if m > 0 {
                dec_digits(m as int)
            } else {
                Seq::<char>::empty()
            }) + digits@.reverse(),
        decreases m,
    {
        let ghost prev = digits@;
        let ghost m0 = m as int;
        digits.push(digit_to_char(m % 10));
        proof {
            assert(digits@.reverse() =~= seq![digit_char(m0 % 10)] + prev.reverse());
            if m0 < 10 {
                assert(dec_digits(m0) =~= seq![digit_char(m0)]);
                assert(dec_digits(n as int) =~= Seq::<char>::empty() + digits@.reverse());
            } else {
                assert(dec_digits(m0) =~= dec_digits(m0 / 10).push(digit_char(m0 % 10)));
                assert(dec_digits(m0) + prev.reverse() =~= dec_digits(m0 / 10)
                    + digits@.reverse());
                assert(dec_digits(n as int) =~= dec_digits(m0 / 10) + digits@.reverse());
            }
        }
        m = m / 10;
    }

    let mut r = String::new();
    let mut i: usize = digits.len();
    while i > 0
        invariant
            0 <= i <= digits@.len(),
            r@ =~= digits@.skip(i as int).reverse(),
        decreases i,
    {
        let c = digits[i - 1];
        string_push(&mut r, c);
        proof {
            assert(digits@.skip(i - 1) =~= seq![digits@[i - 1]] + digits@.skip(i as int));
            assert(digits@.skip(i - 1).reverse() =~= digits@.skip(i as int).reverse().push(
                digits@[i - 1],
            ));
        }
        i -= 1;
    }
    proof {
        assert(digits@.skip(0) =~= digits@);
    }
    r
}

/// The decimal rendering of a signed number.
pub open spec fn spec_int_display(n: int) -> Seq<char> {
    if n < 0 {
        seq!['-'] + dec_digits(-n)
    } else {
        dec_digits(n)
    }
}

/// Writes a signed number in decimal.
pub fn i32_to_string(n: i32) -> (r: String)
    ensures
        r@ == spec_int_display(n as int),
{
    if n < 0 {
        let m: u64 = (-(n as i64)) as u64;
        let mut r = String::new();
        string_push(&mut r, '-');
        r.append(u64_to_string(m).as_str());
        proof {
            assert(r@ =~= spec_int_display(n as int));
        }
        r
    } else {
        u64_to_string(n as u64)
    }
}

/// The pieces joined with `sep` between each two.
pub open spec fn join_with(ps: Seq<Seq<char>>, sep: char) -> Seq<char>
    decreases ps.len(),
{
    if ps.len() == 0 {
        Seq::empty()
    } else if ps.len() == 1 {
        ps[0]
    } else {
        ps[0] + seq![sep] + join_with(ps.drop_first(), sep)
    }
}

/// Joining one more piece appends a separator and the piece.
pub proof fn lemma_join_push(ps: Seq<Seq<char>>, sep: char, x: Seq<char>)
    ensures
        join_with(ps.push(x), sep) == (if ps.len() == 0 {
            x
        } else {
            join_with(ps, sep) + seq![sep] + x
        }),
    decreases ps.len(),
{
    let t = ps.push(x);
    if ps.len() == 0 {
        assert(t.len() == 1);
        assert(t[0] == x);
    } else {
        assert(t.drop_first() =~= ps.drop_first().push(x));
        assert(t[0] == ps[0]);
        lemma_join_push(ps.drop_first(), sep, x);
        if ps.len() == 1 {
            assert(ps.drop_first().len() == 0);
            assert(join_with(t, sep) == t[0] + seq![sep] + join_with(t.drop_first(), sep));
            assert(join_with(ps, sep) == ps[0]);
        } else {
            assert(join_with(ps, sep) + seq![sep] + x =~= ps[0] + seq![sep] + (join_with(
                ps.drop_first(),
                sep,
            ) + seq![sep] + x));
        }
    }
}

/// Joins the strings of a vector with a separator character.
pub fn join_strings(v: &Vec<String>, sep: char) -> (r: String)
    ensures
        r@ == join_with(views_of(v@), sep),
{
    let n = v.len();
    let mut r = String::new();
    let mut i: usize = 0;
    proof {
        assert(views_of(v@).take(0) =~= Seq::<Seq<char>>::empty());
        assert(r@ =~= join_with(views_of(v@).take(0), sep));
    }
    while i < n
        invariant
            0 <= i <= n,
            n == v@.len(),
            r@ == join_with(views_of(v@).take(i as int), sep),
        decreases n - i,
    {
        let ghost pre = r@;
        proof {
            assert(views_of(v@)[i as int] == v@[i as int]@);
            assert(views_of(v@).take(i as int + 1) =~= views_of(v@).take(i as int).push(
                views_of(v@)[i as int],
            ));
            lemma_join_push(views_of(v@).take(i as int), sep, views_of(v@)[i as int]);
        }
        if i > 0 {
            string_push(&mut r, sep);
        }
        r.append(v[i].as_str());
        proof {
            if i == 0 {
                assert(pre.len() == 0);
                assert(r@ =~= views_of(v@)[0]);
            } else {
                assert(r@ =~= pre + seq![sep] + views_of(v@)[i as int]);
            }
        }
        i += 1;
    }
    proof {
        assert(views_of(v@).take(n as int) =~= views_of(v@));
    }
    r
}

/// Holds when `p` is an initial segment of `s`.
pub open spec fn is_prefix(p: Seq<char>, s: Seq<char>) -> bool {
    p.len() <= s.len() && p == s.take(p.len() as int)
}

/// Tests whether `s` starts with `p`, character by character.
pub fn starts_with_str(s: &str, p: &str) -> (r: bool)
    ensures
        r == is_prefix(p@, s@),
{
    let plen = p.unicode_len();
    let slen = s.unicode_len();
    if plen > slen {
        return false;
    }
    let mut i: usize = 0;
    while i < plen
        invariant
            0 <= i <= plen,
            plen == p@.len(),
            slen == s@.len(),
            plen <= slen,
            forall|j: int| 0 <= j < i ==> p@[j] == s@[j],
        decreases plen - i,
    {
        if s.get_char(i) != p.get_char(i) {
            proof {
                assert(s@.take(plen as int)[i as int] == s@[i as int]);
            }
            return false;
        }
        i += 1;
    }
    proof {
        assert(p@ =~= s@.take(plen as int));
    }
    true
}

/// Tests two strings for equality, character by character.
pub fn str_eq(a: &str, b: &str) -> (r: bool)
    ensures
        r == (a@ == b@),
{
    let alen = a.unicode_len();
    let blen = b.unicode_len();
    if alen != blen {
        return false;
    }
    let mut i: usize = 0;
    while i < alen
        invariant
            0 <= i <= alen,
            alen == a@.len(),
            alen == b@.len(),
            forall|j: int| 0 <= j < i ==> a@[j] == b@[j],
        decreases alen - i,
    {
        if a.get_char(i) != b.get_char(i) {
            return false;
        }
        i += 1;
    }
    proof {
        assert(a@ =~= b@);
    }
    true
}

/// The position of the first `sep` in `s`, or `s.len()` if there is none.
pub open spec fn find_sep(s: Seq<char>, sep: char) -> int
    decreases s.len(),
{
    if s.len() == 0 {
        0
    } else if s[0] == sep {
        0
    } else {
        1 + find_sep(s.drop_first(), sep)
    }
}

/// `find_sep` points at the first separator, or past the end.
pub proof fn lemma_find_sep(s: Seq<char>, sep: char)
    ensures
        0 <= find_sep(s, sep) <= s.len(),
        find_sep(s, sep) < s.len() ==> s[find_sep(s, sep)] == sep,
        forall|j: int| 0 <= j < find_sep(s, sep) ==> s[j] != sep,
    decreases s.len(),
{
    if s.len() > 0 && s[0] != sep {
        lemma_find_sep(s.drop_first(), sep);
        assert(forall|j: int| 0 <= j < find_sep(s.drop_first(), sep) ==> s.drop_first()[j]
            != sep);
        assert forall|j: int| 0 <= j < find_sep(s, sep) implies s[j] != sep by {
            if j > 0 {
                assert(s.drop_first()[j - 1] != sep);
            }
        }
    }
}

/// `s` divided at every `sep`; separators are dropped, empty pieces kept.
pub open spec fn split_chars(s: Seq<char>, sep: char) -> Seq<Seq<char>>
    decreases s.len()
        via split_chars_decreases
{
    if find_sep(s, sep) == s.len() {
        seq![s]
    } else {
        seq![s.take(find_sep(s, sep))] + split_chars(s.skip(find_sep(s, sep) + 1), sep)
    }
}

#[via_fn]
proof fn split_chars_decreases(s: Seq<char>, sep: char) {
    lemma_find_sep(s, sep);
}

/// A separator-free sequence splits into itself alone.
pub proof fn lemma_split_whole(a: Seq<char>, sep: char)
    requires
        forall|j: int| 0 <= j < a.len() ==> a[j] != sep,
    ensures
        split_chars(a, sep) == seq![a],
    decreases a.len(),
{
    lemma_find_sep(a, sep);
    if find_sep(a, sep) < a.len() {
        assert(a[find_sep(a, sep)] == sep);
    }
}

proof fn lemma_find_sep_prefix(a: Seq<char>, sep: char, rest: Seq<char>)
    requires
        forall|j: int| 0 <= j < a.len() ==> a[j] != sep,
    ensures
        find_sep(a + seq![sep] + rest, sep) == a.len(),
    decreases a.len(),
{
    let s = a + seq![sep] + rest;
    if a.len() == 0 {
        assert(s[0] == sep);
    } else {
        assert(s[0] == a[0]);
        assert(s.drop_first() =~= a.drop_first() + seq![sep] + rest);
        assert(forall|j: int| 0 <= j < a.drop_first().len() ==> a.drop_first()[j] != sep);
        lemma_find_sep_prefix(a.drop_first(), sep, rest);
    }
}

/// Splitting after a separator-free head yields the head, then the tail's parts.
pub proof fn lemma_split_step(a: Seq<char>, sep: char, rest: Seq<char>)
    requires
        forall|j: int| 0 <= j < a.len() ==> a[j] != sep,
    ensures
        split_chars(a + seq![sep] + rest, sep) == seq![a] + split_chars(rest, sep),
{
    let s = a + seq![sep] + rest;
    lemma_find_sep_prefix(a, sep, rest);
    assert(s.take(a.len() as int) =~= a);
    assert(s.skip(a.len() as int + 1) =~= rest);
}

/// The views of a vector of strings.
pub open spec fn views_of(v: Seq<String>) -> Seq<Seq<char>> {
    v.map_values(|p: String| p@)
}

/// Divides a string at every occurrence of `sep`.
pub fn split_str(s: &str, sep: char) -> (parts: Vec<String>)
    ensures
        views_of(parts@) == split_chars(s@, sep),
{
    let len = s.unicode_len();
    let mut parts: Vec<String> = Vec::new();
    let mut cur = String::new();
    let mut i: usize = 0;
    proof {
        assert(cur@ + s@.skip(0) =~= s@);
        assert(views_of(parts@) =~= Seq::<Seq<char>>::empty());
    }
    while i < len
        invariant
            0 <= i <= len,
            len == s@.len(),
            forall|j: int| 0 <= j < cur@.len() ==> cur@[j] != sep,
            split_chars(s@, sep) =~= views_of(parts@) + split_chars(
                cur@ + s@.skip(i as int),
                sep,
            ),
        decreases len - i,
    {
        let c = s.get_char(i);
        let ghost prev_parts = parts@;
        let ghost prev_cur = cur@;
        proof {
            assert(s@.skip(i as int) =~= seq![s@[i as int]] + s@.skip(i + 1));
        }
        if c == sep {
            parts.push(cur);
            cur = String::new();
            proof {
                assert(prev_cur + (seq![sep] + s@.skip(i + 1)) =~= prev_cur + seq![sep]
                    + s@.skip(i + 1));
                lemma_split_step(prev_cur, sep, s@.skip(i + 1));
                assert(views_of(parts@) =~= views_of(prev_parts).push(prev_cur));
                assert(cur@ + s@.skip(i + 1) =~= s@.skip(i + 1));
            }
        } else {
            string_push(&mut cur, c);
            proof {
                assert(cur@ + s@.skip(i + 1) =~= prev_cur + s@.skip(i as int));
            }
        }
        i += 1;
    }
    proof {
        assert(cur@ + s@.skip(len as int) =~= cur@);
        lemma_split_whole(cur@, sep);
    }
    let ghost prev_parts = parts@;
    let ghost last = cur@;
    parts.push(cur);
    proof {
        assert(views_of(parts@) =~= views_of(prev_parts).push(last));
    }
    parts
}

/// Whether one of the strings of `v` reads `s`.
pub fn vec_contains_str(v: &Vec<String>, s: &str) -> (r: bool)
    ensures
        r == views_of(v@).contains(s@),
{
    let n = v.len();
    let mut i: usize = 0;
    while i < n
        invariant
            0 <= i <= n,
            n == v@.len(),
            forall|j: int| 0 <= j < i ==> views_of(v@)[j] != s@,
        decreases n - i,
    {
        if str_eq(v[i].as_str(), s) {
            proof {
                assert(views_of(v@)[i as int] == s@);
            }
            return true;
        }
        i += 1;
    }
    proof {
        assert(!views_of(v@).contains(s@));
    }
    false
}

/// A copy of a vector of strings.
pub fn clone_string_vec(v: &Vec<String>) -> (r: Vec<String>)
    ensures
        r@ == v@,
{
    let n = v.len();
    let mut r: Vec<String> = Vec::new();
    let mut i: usize = 0;
    while i < n
        invariant
            0 <= i <= n,
            n == v@.len(),
            r@ =~= v@.take(i as int),
        decreases n - i,
    {
        r.push(v[i].clone());
        proof {
            assert(r@ =~= v@.take(i as int + 1));
        }
        i += 1;
    }
    proof {
        assert(v@.take(n as int) =~= v@);
    }
    r
}

/// `acc` extended by those elements of `xs` it does not already hold,
/// in order of first appearance.
pub open spec fn dedup_append(acc: Seq<Seq<char>>, xs: Seq<Seq<char>>) -> Seq<Seq<char>>
    decreases xs.len(),
{
    if xs.len() == 0 {
        acc
    } else {
        dedup_append(
            if acc.contains(xs.first()) {
                acc
            } else {
                acc.push(xs.first())
            },
            xs.drop_first(),
        )
    }
}

/// Appending a single element takes one step.
pub proof fn lemma_dedup_append_one(acc: Seq<Seq<char>>, x: Seq<char>)
    ensures
        dedup_append(acc, seq![x]) == (if acc.contains(x) {
            acc
        } else {
            acc.push(x)
        }),
{
    let s = seq![x];
    let step = if acc.contains(x) {
        acc
    } else {
        acc.push(x)
    };
    assert(s.first() == x);
    assert(s.drop_first().len() == 0);
    assert(dedup_append(step, s.drop_first()) == step);
    assert(dedup_append(acc, s) == dedup_append(step, s.drop_first()));
}

/// Appending element by element agrees with appending all at once.
pub proof fn lemma_dedup_append_concat(acc: Seq<Seq<char>>, s: Seq<Seq<char>>, t: Seq<Seq<char>>)
    ensures
        dedup_append(acc, s + t) == dedup_append(dedup_append(acc, s), t),
    decreases s.len(),
{
    if s.len() == 0 {
        assert(s + t =~= t);
    } else {
        let step = if acc.contains(s.first()) {
            acc
        } else {
            acc.push(s.first())
        };
        assert((s + t).first() == s.first());
        assert((s + t).drop_first() =~= s.drop_first() + t);
        lemma_dedup_append_concat(step, s.drop_first(), t);
    }
}

/// Deduplicated appending introduces no repetition.
pub proof fn lemma_dedup_append_no_dup(acc: Seq<Seq<char>>, xs: Seq<Seq<char>>)
    requires
        acc.no_duplicates(),
    ensures
        dedup_append(acc, xs).no_duplicates(),
    decreases xs.len(),
{
    if xs.len() > 0 {
        if acc.contains(xs.first()) {
            lemma_dedup_append_no_dup(acc, xs.drop_first());
        } else {
            assert(acc.push(xs.first()).no_duplicates());
            lemma_dedup_append_no_dup(acc.push(xs.first()), xs.drop_first());
        }
    }
}

/// What deduplicated appending holds: the old elements and the new ones.
pub proof fn lemma_dedup_append_contains(acc: Seq<Seq<char>>, xs: Seq<Seq<char>>, y: Seq<char>)
    ensures
        dedup_append(acc, xs).contains(y) <==> acc.contains(y) || xs.contains(y),
    decreases xs.len(),
{
    if xs.len() > 0 {
        let step = if acc.contains(xs.first()) {
            acc
        } else {
            acc.push(xs.first())
        };
        lemma_dedup_append_contains(step, xs.drop_first(), y);
        assert(xs.contains(y) ==> xs.first() == y || xs.drop_first().contains(y)) by {
            if xs.contains(y) {
                let i = choose|i: int| 0 <= i < xs.len() && xs[i] == y;
                if i > 0 {
                    assert(xs.drop_first()[i - 1] == y);
                }
            }
        }
        assert((xs.first() == y || xs.drop_first().contains(y)) ==> xs.contains(y)) by {
            if xs.first() == y {
                assert(xs[0] == y);
            } else if xs.drop_first().contains(y) {
                let i = choose|i: int| 0 <= i < xs.drop_first().len() && xs.drop_first()[i] == y;
                assert(xs[i + 1] == y);
            }
        }
    }
}

/// The first elements of `dedup_append` are `acc`'s own, unchanged.
pub proof fn lemma_dedup_append_prefix(acc: Seq<Seq<char>>, xs: Seq<Seq<char>>)
    ensures
        dedup_append(acc, xs).len() >= acc.len(),
        forall|i: int| 0 <= i < acc.len() ==> dedup_append(acc, xs)[i] == acc[i],
    decreases xs.len(),
{
    if xs.len() > 0 {
        let step = if acc.contains(xs.first()) {
            acc
        } else {
            acc.push(xs.first())
        };
        lemma_dedup_append_prefix(step, xs.drop_first());
        assert(step.len() >= acc.len());
        assert(forall|i: int| 0 <= i < acc.len() ==> step[i] == acc[i]);
    }
}

} // verus!

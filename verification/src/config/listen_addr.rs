use vstd::prelude::*;
use crate::strutil::{self, all_digits, dec_value, is_digit, split_chars, split_str, views_of};

verus! {

/// A hexadecimal digit.
pub open spec fn is_hex_digit(c: char) -> bool {
    is_digit(c) || ('a' <= c && c <= 'f') || ('A' <= c && c <= 'F')
}

/// One group of an IPv6 address: one to four hexadecimal digits.
pub open spec fn valid_h16(s: Seq<char>) -> bool {
    1 <= s.len() <= 4 && forall|i: int| 0 <= i < s.len() ==> is_hex_digit(#[trigger] s[i])
}

/// One octet of an IPv4 address: up to three digits, at most `255`, with
/// no leading zero.
pub open spec fn valid_octet(s: Seq<char>) -> bool {
    1 <= s.len() <= 3 && all_digits(s) && dec_value(s) <= 255 && (s.len() > 1 ==> s[0] != '0')
}

/// An IPv4 address: four dot-separated octets.
pub open spec fn valid_ipv4(s: Seq<char>) -> bool {
    let ps = split_chars(s, '.');
    ps.len() == 4 && forall|i: int| 0 <= i < ps.len() ==> valid_octet(#[trigger] ps[i])
}

/// Every group is a well-formed IPv6 group.
pub open spec fn all_h16(ps: Seq<Seq<char>>) -> bool {
    forall|i: int| 0 <= i < ps.len() ==> valid_h16(#[trigger] ps[i])
}

/// No group is empty.
pub open spec fn no_empty(ps: Seq<Seq<char>>) -> bool {
    forall|i: int| 0 <= i < ps.len() ==> (#[trigger] ps[i]).len() > 0
}

/// The groups after a `::` marker: all IPv6 groups, except that the last
/// may instead be an embedded IPv4 address.
pub open spec fn tail_ok(ps: Seq<Seq<char>>) -> bool {
    ps.len() == 0 || ((forall|i: int| 0 <= i < ps.len() - 1 ==> valid_h16(#[trigger] ps[i]))
        && (valid_h16(ps.last()) || valid_ipv4(ps.last())))
}

/// How many 16-bit words a group list stands for; an embedded IPv4
/// address counts as two.
pub open spec fn words(ps: Seq<Seq<char>>) -> int {
    if ps.len() == 0 {
        0
    } else if valid_ipv4(ps.last()) {
        ps.len() as int + 1
    } else {
        ps.len() as int
    }
}

/// The position of the first empty group, or `ps.len()` if none is empty.
pub open spec fn first_empty(ps: Seq<Seq<char>>) -> int
    decreases ps.len(),
{
    if ps.len() == 0 {
        0
    } else if ps.first().len() == 0 {
        0
    } else {
        1 + first_empty(ps.drop_first())
    }
}

/// `first_empty` points at the first empty group, or past the end.
pub proof fn lemma_first_empty(ps: Seq<Seq<char>>)
    ensures
        0 <= first_empty(ps) <= ps.len(),
        first_empty(ps) < ps.len() ==> ps[first_empty(ps)].len() == 0,
        forall|j: int| 0 <= j < first_empty(ps) ==> (#[trigger] ps[j]).len() > 0,
    decreases ps.len(),
{
    if ps.len() > 0 && ps.first().len() > 0 {
        lemma_first_empty(ps.drop_first());
        assert forall|j: int| 0 <= j < first_empty(ps) implies (#[trigger] ps[j]).len() > 0 by {
            if j > 0 {
                assert(ps.drop_first()[j - 1].len() > 0);
            }
        }
    }
}

/// The head and tail around a valid `::` marker are sound group lists and
/// leave at least one word for the marker to stand for.
pub open spec fn comp_groups_ok(head: Seq<Seq<char>>, tail: Seq<Seq<char>>) -> bool {
    all_h16(head) && tail_ok(tail) && head.len() + words(tail) <= 7
}

/// A full-form IPv6 address: eight groups, or six and an IPv4 suffix.
pub open spec fn valid_ipv6_full(ps: Seq<Seq<char>>) -> bool {
    (ps.len() == 8 && all_h16(ps)) || (ps.len() == 7 && all_h16(ps.take(6)) && valid_ipv4(
        ps[6],
    ))
}

/// A compressed IPv6 address: a single `::` marker at the start, the end,
/// in the middle, or alone, with sound groups around it.
pub open spec fn valid_ipv6_compressed(ps: Seq<Seq<char>>) -> bool {
    let fe = first_empty(ps);
    if ps.len() < 3 || fe == ps.len() {
        false
    } else if fe == 0 {
        if ps[1].len() == 0 {
            if ps.len() == 3 && ps[2].len() == 0 {
                true
            } else {
                no_empty(ps.skip(2)) && comp_groups_ok(Seq::empty(), ps.skip(2))
            }
        } else {
            false
        }
    } else if fe == ps.len() - 2 && ps[ps.len() - 1].len() == 0 {
        comp_groups_ok(ps.take(fe), Seq::empty())
    } else if fe < ps.len() - 1 && no_empty(ps.skip(fe + 1)) {
        comp_groups_ok(ps.take(fe), ps.skip(fe + 1))
    } else {
        false
    }
}

/// An IPv6 address, full or compressed, over the colon-separated groups.
pub open spec fn valid_ipv6(s: Seq<char>) -> bool {
    let ps = split_chars(s, ':');
    valid_ipv6_full(ps) || valid_ipv6_compressed(ps)
}

/// A syntactically valid IP address of either family.
pub open spec fn valid_ip(s: Seq<char>) -> bool {
    valid_ipv4(s) || valid_ipv6(s)
}

/// A listen address: the literal `localhost`, an IP address, or an IP
/// address in brackets.
pub open spec fn valid_listen_addr(s: Seq<char>) -> bool {
    if s == "localhost"@ {
        true
    } else if s.len() >= 2 && s[0] == '[' && s.last() == ']' {
        valid_ip(s.subrange(1, s.len() - 1))
    } else {
        valid_ip(s)
    }
}

fn is_hex_char(c: char) -> (r: bool)
    ensures
        r == is_hex_digit(c),
{
    ('0' <= c && c <= '9') || ('a' <= c && c <= 'f') || ('A' <= c && c <= 'F')
}

fn check_h16(s: &str) -> (r: bool)
    ensures
        r == valid_h16(s@),
{
    let len = s.unicode_len();
    if len < 1 || len > 4 {
        return false;
    }
    let mut i: usize = 0;
    while i < len
        invariant
            0 <= i <= len,
            len == s@.len(),
            forall|j: int| 0 <= j < i ==> is_hex_digit(#[trigger] s@[j]),
        decreases len - i,
    {
        if !is_hex_char(s.get_char(i)) {
            return false;
        }
        i += 1;
    }
    true
}

fn check_octet(s: &str) -> (r: bool)
    ensures
        r == valid_octet(s@),
{
    let len = s.unicode_len();
    if len < 1 || len > 3 {
        return false;
    }
    if len > 1 && s.get_char(0) == '0' {
        return false;
    }
    match strutil::parse_u16(s) {
        Some(v) => {
            proof {
                if all_digits(s@) {
                    strutil::lemma_dec_value_nonneg(s@);
                }
            }
            v <= 255
        },
        None => {
            proof {
                // A string of at most three digits always fits in 16 bits.
                if all_digits(s@) {
                    lemma_small_dec_value(s@);
                }
            }
            false
        },
    }
}

/// A digit string of at most three digits denotes at most `999`.
proof fn lemma_small_dec_value(s: Seq<char>)
    requires
        all_digits(s),
        s.len() <= 3,
    ensures
        dec_value(s) <= 999,
    decreases s.len(),
{
    if s.len() > 0 {
        assert(all_digits(s.drop_last()));
        lemma_small_dec_value2(s.drop_last());
        assert(dec_value(s) == dec_value(s.drop_last()) * 10 + strutil::digit_val(s.last()));
    }
}

/// A digit string of at most two digits denotes at most `99`.
proof fn lemma_small_dec_value2(s: Seq<char>)
    requires
        all_digits(s),
        s.len() <= 2,
    ensures
        dec_value(s) <= 99,
    decreases s.len(),
{
    if s.len() > 0 {
        assert(all_digits(s.drop_last()));
        lemma_small_dec_value1(s.drop_last());
        assert(dec_value(s) == dec_value(s.drop_last()) * 10 + strutil::digit_val(s.last()));
    }
}

/// A digit string of at most one digit denotes at most `9`.
proof fn lemma_small_dec_value1(s: Seq<char>)
    requires
        all_digits(s),
        s.len() <= 1,
    ensures
        dec_value(s) <= 9,
{
    if s.len() == 1 {
        assert(dec_value(s) == dec_value(s.drop_last()) * 10 + strutil::digit_val(s.last()));
    }
}

/// Whether `s` is a syntactically valid IPv4 address.
pub fn check_ipv4(s: &str) -> (r: bool)
    ensures
        r == valid_ipv4(s@),
{
    let parts = split_str(s, '.');
    let n = parts.len();
    if n != 4 {
        return false;
    }
    let mut i: usize = 0;
    while i < n
        invariant
            0 <= i <= n,
            n == parts@.len(),
            views_of(parts@) == split_chars(s@, '.'),
            forall|j: int| 0 <= j < i ==> valid_octet(#[trigger] views_of(parts@)[j]),
        decreases n - i,
    {
        proof {
            assert(views_of(parts@)[i as int] == parts@[i as int]@);
        }
        if !check_octet(parts[i].as_str()) {
            return false;
        }
        i += 1;
    }
    true
}

fn check_h16_range(parts: &Vec<String>, from: usize, to: usize) -> (r: bool)
    requires
        from <= to <= parts@.len(),
    ensures
        r == forall|i: int| from <= i < to ==> valid_h16(#[trigger] views_of(parts@)[i]),
{
    let mut i: usize = from;
    while i < to
        invariant
            from <= i <= to <= parts@.len(),
            forall|j: int| from <= j < i ==> valid_h16(#[trigger] views_of(parts@)[j]),
        decreases to - i,
    {
        proof {
            assert(views_of(parts@)[i as int] == parts@[i as int]@);
        }
        if !check_h16(parts[i].as_str()) {
            return false;
        }
        i += 1;
    }
    true
}

fn find_first_empty(parts: &Vec<String>) -> (r: usize)
    ensures
        r as int == first_empty(views_of(parts@)),
{
    let ghost ps = views_of(parts@);
    let n = parts.len();
    let mut i: usize = 0;
    while i < n
        invariant
            0 <= i <= n,
            n == parts@.len(),
            ps == views_of(parts@),
            forall|j: int| 0 <= j < i ==> (#[trigger] ps[j]).len() > 0,
        decreases n - i,
    {
        proof {
            assert(ps[i as int] == views_of(parts@)[i as int]);
            assert(views_of(parts@)[i as int] == parts@[i as int]@);
        }
        if parts[i].as_str().unicode_len() == 0 {
            proof {
                lemma_first_empty(ps);
                assert(first_empty(ps) == i as int) by {
                    if first_empty(ps) < i as int {
                        assert(ps[first_empty(ps)].len() > 0);
                    } else if (i as int) < first_empty(ps) {
                        assert(ps[i as int].len() > 0);
                    }
                }
            }
            return i;
        }
        i += 1;
    }
    proof {
        lemma_first_empty(ps);
        if first_empty(ps) < n as int {
            assert(ps[first_empty(ps)].len() > 0);
        }
    }
    n
}

/// Whether `s` is a syntactically valid IPv6 address.
pub fn check_ipv6(s: &str) -> (r: bool)
    ensures
        r == valid_ipv6(s@),
{
    let parts = split_str(s, ':');
    let ghost ps = split_chars(s@, ':');
    let n = parts.len();
    proof {
        assert(ps == views_of(parts@));
        assert forall|i: int| 0 <= i < ps.len() implies #[trigger] ps[i] == parts@[i]@ by {
            assert(views_of(parts@)[i] == parts@[i]@);
        }
    }
    let fe = find_first_empty(&parts);
    proof {
        lemma_first_empty(ps);
    }

    if fe == n {
        // Full form: eight groups, or six and an IPv4 suffix.
        if n == 8 {
            let h = check_h16_range(&parts, 0, 8);
            proof {
                if h {
                    assert(all_h16(ps));
                } else {
                    assert(!all_h16(ps)) by {
                        if all_h16(ps) {
                            assert forall|i: int| 0 <= i < 8 implies valid_h16(
                                #[trigger] views_of(parts@)[i],
                            ) by {
                                assert(valid_h16(ps[i]));
                            }
                        }
                    }
                }
            }
            h
        } else if n == 7 {
            let h = check_h16_range(&parts, 0, 6);
            let v4 = check_ipv4(parts[6].as_str());
            proof {
                assert(ps[6] == parts@[6]@);
                assert forall|i: int| 0 <= i < 6 implies (#[trigger] ps.take(6)[i]) == ps[i] by {}
                if h {
                    assert(all_h16(ps.take(6)));
                } else {
                    assert(!all_h16(ps.take(6))) by {
                        if all_h16(ps.take(6)) {
                            assert forall|i: int| 0 <= i < 6 implies valid_h16(
                                #[trigger] views_of(parts@)[i],
                            ) by {
                                assert(valid_h16(ps.take(6)[i]));
                            }
                        }
                    }
                }
            }
            h && v4
        } else {
            false
        }
    } else {
        let ghost gap = ps[fe as int];
        proof {
            // An empty group rules the full forms out.
            assert(gap.len() == 0);
            assert(!valid_ipv6_full(ps)) by {
                if valid_ipv6_full(ps) {
                    if ps.len() == 8 {
                        assert(valid_h16(ps[fe as int]));
                    } else if fe < 6 {
                        assert(ps.take(6)[fe as int] == ps[fe as int]);
                        assert(valid_h16(ps.take(6)[fe as int]));
                    } else {
                        assert(valid_ipv4(ps[6]));
                        assert(split_chars(gap, '.') == seq![gap]);
                    }
                }
            }
        }
        if n < 3 {
            false
        } else if fe == 0 {
            if parts[1].as_str().unicode_len() != 0 {
                false
            } else if n == 3 && parts[2].as_str().unicode_len() == 0 {
                true
            } else {
                // "::" at the start: the remaining groups form the tail.
                proof {
                    assert(ps.skip(2) =~= ps.subrange(2, n as int));
                    assert forall|i: int| 0 <= i < ps.skip(2).len() implies #[trigger] ps.skip(
                        2,
                    )[i] == views_of(parts@)[i + 2] by {}
                }
                let ne = check_no_empty(&parts, 2, n);
                let tl = check_tail(&parts, 2, n);
                let lim = count_limit(&parts, n);
                let r = ne && tl && n - 2 <= lim;
                proof {
                    if ne {
                        assert(no_empty(ps.skip(2))) by {
                            assert forall|i: int| 0 <= i < ps.skip(2).len() implies (
                            #[trigger] ps.skip(2)[i]).len() > 0 by {
                                assert(views_of(parts@)[i + 2].len() > 0);
                            }
                        }
                    } else {
                        assert(!no_empty(ps.skip(2))) by {
                            if no_empty(ps.skip(2)) {
                                assert forall|i: int| 2 <= i < n as int implies (
                                #[trigger] views_of(parts@)[i]).len() > 0 by {
                                    assert(ps.skip(2)[i - 2].len() > 0);
                                }
                            }
                        }
                    }
                    assert(tail_ok(ps.skip(2)) == tail_ok(views_of(parts@).subrange(2, n as int)));
                    assert(words(ps.skip(2)) == words(views_of(parts@).subrange(2, n as int)));
                    assert(Seq::<Seq<char>>::empty().len() + words(ps.skip(2)) == words(
                        ps.skip(2),
                    ));
                }
                r
            }
        } else if fe == n - 2 && parts[n - 1].as_str().unicode_len() == 0 {
            // "::" at the end: the leading groups form the head.
            proof {
                assert(ps.take(fe as int) =~= views_of(parts@).take(fe as int));
                assert forall|i: int| 0 <= i < fe as int implies (#[trigger] ps.take(fe as int)[i])
                    == ps[i] by {}
            }
            let h = check_h16_range(&parts, 0, fe);
            let r = h && fe <= 7;
            proof {
                if h {
                    assert(all_h16(ps.take(fe as int)));
                } else {
                    assert(!all_h16(ps.take(fe as int))) by {
                        if all_h16(ps.take(fe as int)) {
                            assert forall|i: int| 0 <= i < fe as int implies valid_h16(
                                #[trigger] views_of(parts@)[i],
                            ) by {
                                assert(valid_h16(ps.take(fe as int)[i]));
                            }
                        }
                    }
                }
                assert(words(Seq::<Seq<char>>::empty()) == 0);
            }
            r
        } else if fe < n - 1 {
            // "::" in the middle.
            proof {
                assert(ps.skip(fe as int + 1) =~= ps.subrange(fe as int + 1, n as int));
                assert forall|i: int| 0 <= i < ps.skip(fe as int + 1).len() implies
                    #[trigger] ps.skip(fe as int + 1)[i] == views_of(parts@)[i + fe as int
                    + 1] by {}
                assert(ps.take(fe as int) =~= views_of(parts@).take(fe as int));
                assert forall|i: int| 0 <= i < fe as int implies (#[trigger] ps.take(fe as int)[i])
                    == ps[i] by {}
            }
            let ne = check_no_empty(&parts, fe + 1, n);
            let h = check_h16_range(&parts, 0, fe);
            let tl = check_tail(&parts, fe + 1, n);
            let extra = ipv4_extra(&parts, fe + 1, n);
            let r = ne && h && tl && fe + (n - fe - 1) + extra <= 7;
            proof {
                if ne {
                    assert(no_empty(ps.skip(fe as int + 1))) by {
                        assert forall|i: int| 0 <= i < ps.skip(fe as int + 1).len() implies (
                        #[trigger] ps.skip(fe as int + 1)[i]).len() > 0 by {
                            assert(views_of(parts@)[i + fe as int + 1].len() > 0);
                        }
                    }
                } else {
                    assert(!no_empty(ps.skip(fe as int + 1))) by {
                        if no_empty(ps.skip(fe as int + 1)) {
                            assert forall|i: int| fe as int + 1 <= i < n as int implies (
                            #[trigger] views_of(parts@)[i]).len() > 0 by {
                                assert(ps.skip(fe as int + 1)[i - fe - 1].len() > 0);
                            }
                        }
                    }
                }
                if h {
                    assert(all_h16(ps.take(fe as int)));
                } else {
                    assert(!all_h16(ps.take(fe as int))) by {
                        if all_h16(ps.take(fe as int)) {
                            assert forall|i: int| 0 <= i < fe as int implies valid_h16(
                                #[trigger] views_of(parts@)[i],
                            ) by {
                                assert(valid_h16(ps.take(fe as int)[i]));
                            }
                        }
                    }
                }
                assert(tail_ok(ps.skip(fe as int + 1)) == tail_ok(
                    views_of(parts@).subrange(fe as int + 1, n as int),
                ));
                assert(words(ps.skip(fe as int + 1)) == words(
                    views_of(parts@).subrange(fe as int + 1, n as int),
                ));
            }
            r
        } else {
            false
        }
    }
}

/// Every group in `[from, to)` is non-empty.
pub open spec fn check_no_empty_spec(parts: Seq<String>, from: int, to: int) -> bool {
    forall|i: int| from <= i < to ==> (#[trigger] views_of(parts)[i]).len() > 0
}

fn check_no_empty(parts: &Vec<String>, from: usize, to: usize) -> (r: bool)
    requires
        from <= to <= parts@.len(),
    ensures
        r == check_no_empty_spec(parts@, from as int, to as int),
{
    let mut i: usize = from;
    while i < to
        invariant
            from <= i <= to <= parts@.len(),
            forall|j: int| from <= j < i ==> (#[trigger] views_of(parts@)[j]).len() > 0,
        decreases to - i,
    {
        proof {
            assert(views_of(parts@)[i as int] == parts@[i as int]@);
        }
        if parts[i].as_str().unicode_len() == 0 {
            return false;
        }
        i += 1;
    }
    true
}

/// The suffix `parts[from..to]` viewed as a group list.
proof fn lemma_skip_views(parts: Seq<String>, from: int)
    requires
        0 <= from <= parts.len(),
    ensures
        views_of(parts).skip(from) =~= views_of(parts.skip(from)),
        forall|i: int| from <= i < parts.len() ==> #[trigger] views_of(parts)[i] == views_of(
            parts,
        ).skip(from)[i - from],
{
}

fn check_tail(parts: &Vec<String>, from: usize, to: usize) -> (r: bool)
    requires
        from < to <= parts@.len(),
    ensures
        r == tail_ok(views_of(parts@).subrange(from as int, to as int)),
{
    let ghost tail = views_of(parts@).subrange(from as int, to as int);
    let mut i: usize = from;
    while i < to - 1
        invariant
            from <= i <= to - 1,
            to <= parts@.len(),
            tail == views_of(parts@).subrange(from as int, to as int),
            forall|j: int| 0 <= j < i - from ==> valid_h16(#[trigger] tail[j]),
        decreases to - i,
    {
        proof {
            assert(tail[i - from] == views_of(parts@)[i as int]);
            assert(views_of(parts@)[i as int] == parts@[i as int]@);
        }
        if !check_h16(parts[i].as_str()) {
            proof {
                assert(!valid_h16(tail[i - from]));
                assert(i - from < tail.len() - 1);
            }
            return false;
        }
        i += 1;
    }
    proof {
        assert(tail.last() == views_of(parts@)[to - 1]);
        assert(views_of(parts@)[to - 1] == parts@[to - 1]@);
    }
    let last_ok = check_h16(parts[to - 1].as_str()) || check_ipv4(parts[to - 1].as_str());
    proof {
        if last_ok {
            assert(tail_ok(tail));
        } else {
            assert(!(valid_h16(tail.last()) || valid_ipv4(tail.last())));
        }
    }
    last_ok
}

/// One extra word when the last group of `parts[from..to]` is an embedded
/// IPv4 address.
fn ipv4_extra(parts: &Vec<String>, from: usize, to: usize) -> (r: usize)
    requires
        from < to <= parts@.len(),
    ensures
        r as int == words(views_of(parts@).subrange(from as int, to as int)) - (to - from),
{
    proof {
        assert(views_of(parts@).subrange(from as int, to as int).last() == views_of(parts@)[to
            - 1]);
        assert(views_of(parts@)[to - 1] == parts@[to - 1]@);
    }
    if check_ipv4(parts[to - 1].as_str()) {
        1
    } else {
        0
    }
}

fn count_limit(parts: &Vec<String>, n: usize) -> (r: usize)
    requires
        3 <= n == parts@.len(),
    ensures
        r as int == 7 - (words(views_of(parts@).subrange(2, n as int)) - (n - 2)),
{
    let extra = ipv4_extra(parts, 2, n);
    7 - extra
}

/// The ways a listen address can be rejected.
#[derive(Debug, Clone, Copy, PartialEq, Eq, Structural)]
pub enum ListenAddrError {
    /// A bracketed address whose inside is not an IP address.
    InvalidBracketedAddress,
    /// Text that is neither `localhost` nor an IP address.
    InvalidAddress,
}

/// Validates one listen address: the literal `localhost`, an IP address,
/// or a bracketed IP address pass through unchanged.
pub fn parse_listen_addr(s: &str) -> (r: Result<(), ListenAddrError>)
    ensures
        r is Ok <==> valid_listen_addr(s@),
        r == Err::<(), ListenAddrError>(ListenAddrError::InvalidBracketedAddress) ==> (s@.len()
            >= 2 && s@[0] == '[' && s@.last() == ']'),
{
    if strutil::str_eq(s, "localhost") {
        return Ok(());
    }
    let len = s.unicode_len();
    if len >= 2 && s.get_char(0) == '[' && s.get_char(len - 1) == ']' {
        let inner = s.substring_char(1, len - 1);
        if check_ipv4(inner) || check_ipv6(inner) {
            return Ok(());
        }
        return Err(ListenAddrError::InvalidBracketedAddress);
    }
    if check_ipv4(s) || check_ipv6(s) {
        return Ok(());
    }
    Err(ListenAddrError::InvalidAddress)
}

/// Validates a list of listen addresses, reporting the first bad one.
pub fn validate_listen_addrs(addrs: &Vec<String>) -> (r: Result<(), ListenAddrError>)
    ensures
        r is Ok <==> forall|i: int|
            0 <= i < addrs@.len() ==> valid_listen_addr(#[trigger] views_of(addrs@)[i]),
{
    let n = addrs.len();
    let mut i: usize = 0;
    while i < n
        invariant
            0 <= i <= n,
            n == addrs@.len(),
            forall|j: int| 0 <= j < i ==> valid_listen_addr(#[trigger] views_of(addrs@)[j]),
        decreases n - i,
    {
        proof {
            assert(views_of(addrs@)[i as int] == addrs@[i as int]@);
        }
        if let Err(e) = parse_listen_addr(addrs[i].as_str()) {
            return Err(e);
        }
        i += 1;
    }
    Ok(())
}

/// The reported line for each rejection.
pub open spec fn spec_listen_addr_error_message(e: ListenAddrError) -> Seq<char> {
    match e {
        ListenAddrError::InvalidBracketedAddress => "An invalid IPv6 address was specified"@,
        ListenAddrError::InvalidAddress =>
            "Listen address must be either \"localhost\" or a valid IP address"@,
    }
}

impl ListenAddrError {
    /// One concise line saying why the listen address was rejected.
    pub fn message(&self) -> (r: &'static str)
        ensures
            r@ == spec_listen_addr_error_message(*self),
    {
        match self {
            ListenAddrError::InvalidBracketedAddress => "An invalid IPv6 address was specified",
            ListenAddrError::InvalidAddress => {
                "Listen address must be either \"localhost\" or a valid IP address"
            },
        }
    }
}

} // verus!

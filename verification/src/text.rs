//! Text utilities used by the configuration and control parsers: string equality,
//! prefix stripping, splitting on spaces and integer parsing in a given radix.
use vstd::prelude::*;

verus! {

/// The value of `c` as a digit in `radix`, if it is one (`0-9`, then `a-z` or `A-Z`).
pub open spec fn digit_value(c: char, radix: u32) -> Option<int> {
    let v: int = if '0' <= c && c <= '9' {
        c as int - '0' as int
    } else if 'a' <= c && c <= 'z' {
        c as int - 'a' as int + 10
    } else if 'A' <= c && c <= 'Z' {
        c as int - 'A' as int + 10
    } else {
        radix as int
    };
    if v < radix as int {
        Some(v)
    } else {
        None
    }
}

/// The number that a non-empty run of digits denotes in `radix`, if every character is a digit.
pub open spec fn digits_value(s: Seq<char>, radix: u32) -> Option<int>
    decreases s.len(),
{
    if s.len() == 0 {
        None
    } else {
        match digit_value(s.last(), radix) {
            None => None,
            Some(d) => if s.len() == 1 {
                Some(d)
            } else {
                match digits_value(s.drop_last(), radix) {
                    None => None,
                    Some(v) => Some(v * radix + d),
                }
            },
        }
    }
}

/// The integer that `s` denotes: an optional `+` or `-` sign followed by at least one digit.
pub open spec fn integer_value(s: Seq<char>, radix: u32) -> Option<int> {
    if s.len() > 0 && s[0] == '-' {
        match digits_value(s.drop_first(), radix) {
            Some(v) => Some(-v),
            None => None,
        }
    } else if s.len() > 0 && s[0] == '+' {
        digits_value(s.drop_first(), radix)
    } else {
        digits_value(s, radix)
    }
}

/// What parsing `s` as an `i32` in `radix` gives: the value when it is written correctly
/// and fits in an `i32`.
pub open spec fn parse_i32_spec(s: Seq<char>, radix: u32) -> Option<i32> {
    match integer_value(s, radix) {
        Some(v) => if i32::MIN <= v <= i32::MAX {
            Some(v as i32)
        } else {
            None
        },
        None => None,
    }
}

proof fn lemma_digits_nonneg(s: Seq<char>, radix: u32)
    requires
        2 <= radix <= 36,
    ensures
        digits_value(s, radix) matches Some(v) ==> v >= 0,
    decreases s.len(),
{
    if s.len() > 1 {
        lemma_digits_nonneg(s.drop_last(), radix);
        if let Some(v) = digits_value(s.drop_last(), radix) {
            assert(v * radix >= 0) by (nonlinear_arith)
                requires
                    v >= 0,
                    radix >= 2,
            ;
        }
    }
}

/// A run of digits denotes at least as much as any of its non-empty prefixes.
proof fn lemma_digits_monotone(s: Seq<char>, k: int, radix: u32)
    requires
        2 <= radix <= 36,
        1 <= k <= s.len(),
        digits_value(s, radix) is Some,
    ensures
        digits_value(s.take(k), radix) is Some,
        digits_value(s.take(k), radix)->0 <= digits_value(s, radix)->0,
    decreases s.len(),
{
    if k == s.len() {
        assert(s.take(k) =~= s);
    } else {
        let p = s.drop_last();
        assert(p.take(k) =~= s.take(k));
        lemma_digits_monotone(p, k, radix);
        lemma_digits_nonneg(p, radix);
        let v = digits_value(p, radix)->0;
        assert(v * radix >= v) by (nonlinear_arith)
            requires
                v >= 0,
                radix >= 2,
        ;
    }
}

/// The value of an ASCII digit character in `radix`.
fn digit_of(c: char, radix: u32) -> (r: Option<u32>)
    requires
        2 <= radix <= 36,
    ensures
        match digit_value(c, radix) {
            Some(v) => r == Some(v as u32),
            None => r is None,
        },
{
    let v: u32 = if '0' <= c && c <= '9' {
        (c as u32) - ('0' as u32)
    } else if 'a' <= c && c <= 'z' {
        (c as u32) - ('a' as u32) + 10
    } else if 'A' <= c && c <= 'Z' {
        (c as u32) - ('A' as u32) + 10
    } else {
        radix
    };
    if v < radix {
        Some(v)
    } else {
        None
    }
}

/// Parses `s` as an `i32` written in `radix`, with an optional leading sign.
pub fn parse_i32(s: &str, radix: u32) -> (r: Option<i32>)
    requires
        2 <= radix <= 36,
    ensures
        r == parse_i32_spec(s@, radix),
{
    let n = s.unicode_len();
    if n == 0 {
        return None;
    }
    let first = s.get_char(0);
    let negative = first == '-';
    let start: usize = if first == '-' || first == '+' {
        1
    } else {
        0
    };
    let ghost body = s@.skip(start as int);
    if start == 1 {
        assert(body =~= s@.drop_first());
    } else {
        assert(body =~= s@);
    }
    if start == n {
        return None;
    }
    // `acc` stays at most 2^31, the largest magnitude an `i32` can take.
    let mut acc: i64 = 0;
    let mut i: usize = start;
    while i < n
        invariant
            2 <= radix <= 36,
            n == s@.len(),
            start <= i <= n,
            start < n,
            start <= 1,
            body == s@.skip(start as int),
            0 <= acc <= 0x8000_0000,
            i == start ==> acc == 0,
            i > start ==> digits_value(body.take(i - start), radix) == Some(acc as int),
            s@.len() > 0,
            negative == (s@[0] == '-'),
            start == 1 ==> body == s@.drop_first() && (s@[0] == '-' || s@[0] == '+'),
            start == 0 ==> body == s@ && s@[0] != '-' && s@[0] != '+',
        decreases n - i,
    {
        let c = s.get_char(i);
        let ghost pre = body.take(i - start);
        let ghost cur = body.take(i + 1 - start);
        assert(cur.drop_last() =~= pre);
        assert(cur.last() == c);
        match digit_of(c, radix) {
            None => {
                proof {
                    assert(digits_value(cur, radix) is None);
                    if digits_value(body, radix) is Some {
                        lemma_digits_monotone(body, i + 1 - start, radix);
                    }
                    assert(digits_value(body, radix) is None);
                    if start == 1 {
                        assert(digits_value(s@.drop_first(), radix) is None);
                        if s@[0] == '-' {
                            assert(integer_value(s@, radix) is None);
                        } else {
                            assert(s@[0] == '+');
                            assert(integer_value(s@, radix) is None);
                        }
                    } else {
                        assert(digits_value(s@, radix) is None);
                        assert(integer_value(s@, radix) is None);
                    }
                }
                return None;
            },
            Some(d) => {
                assert(acc * radix <= 0x8000_0000 * 36) by (nonlinear_arith)
                    requires
                        0 <= acc <= 0x8000_0000,
                        radix <= 36,
                ;
                let next: i64 = acc * (radix as i64) + (d as i64);
                assert(digits_value(cur, radix) == Some(next as int));
                if next > 0x8000_0000 {
                    proof {
                        if digits_value(body, radix) is Some {
                            lemma_digits_monotone(body, i + 1 - start, radix);
                        }
                        if start == 1 {
                            assert(digits_value(s@.drop_first(), radix) == digits_value(body, radix));
                        }
                        assert(parse_i32_spec(s@, radix) is None);
                    }
                    return None;
                }
                acc = next;
            },
        }
        i = i + 1;
    }
    assert(body.take(n - start) =~= body);
    if negative {
        Some((0 - acc) as i32)
    } else if acc <= 0x7fff_ffff {
        Some(acc as i32)
    } else {
        None
    }
}

/// Whether two strings hold the same characters.
pub fn str_eq(a: &str, b: &str) -> (r: bool)
    ensures
        r == (a@ == b@),
{
    let n = a.unicode_len();
    if n != b.unicode_len() {
        return false;
    }
    let mut i: usize = 0;
    while i < n
        invariant
            n == a@.len(),
            n == b@.len(),
            i <= n,
            forall|j: int| 0 <= j < i ==> a@[j] == b@[j],
        decreases n - i,
    {
        if a.get_char(i) != b.get_char(i) {
            return false;
        }
        i = i + 1;
    }
    assert(a@ =~= b@);
    true
}

/// The rest of `s` after `prefix`, when `s` starts with `prefix`.
pub fn strip_prefix<'a>(s: &'a str, prefix: &str) -> (r: Option<&'a str>)
    ensures
        r is Some <==> prefix@.is_prefix_of(s@),
        r matches Some(t) ==> t@ == s@.skip(prefix@.len() as int),
{
    let n = s.unicode_len();
    let m = prefix.unicode_len();
    if m > n {
        return None;
    }
    let mut i: usize = 0;
    while i < m
        invariant
            n == s@.len(),
            m == prefix@.len(),
            m <= n,
            i <= m,
            forall|j: int| 0 <= j < i ==> prefix@[j] == s@[j],
        decreases m - i,
    {
        if s.get_char(i) != prefix.get_char(i) {
            return None;
        }
        i = i + 1;
    }
    assert(prefix@ =~= s@.subrange(0, m as int));
    Some(s.substring_char(m, n))
}

/// Joins pieces with a single space between each two of them.
pub open spec fn join_spaces(pieces: Seq<Seq<char>>) -> Seq<char>
    decreases pieces.len(),
{
    if pieces.len() == 0 {
        Seq::empty()
    } else if pieces.len() == 1 {
        pieces[0]
    } else {
        join_spaces(pieces.drop_last()) + seq![' '] + pieces.last()
    }
}

/// The pieces of a text between its spaces, as `str::split(' ')` yields them, empty pieces
/// included: a space closes the current piece and opens a new one.
pub open spec fn split_spaces_spec(s: Seq<char>) -> Seq<Seq<char>>
    decreases s.len(),
{
    if s.len() == 0 {
        seq![Seq::empty()]
    } else {
        let prev = split_spaces_spec(s.drop_last());
        if s.last() == ' ' {
            prev.push(Seq::empty())
        } else {
            prev.update(prev.len() - 1, prev.last().push(s.last()))
        }
    }
}

/// The pieces are free of spaces, there is one piece more than there are spaces, and joining
/// the pieces with single spaces gives the text back.
pub open spec fn is_space_split(s: Seq<char>, pieces: Seq<Seq<char>>) -> bool {
    &&& pieces.len() >= 1
    &&& join_spaces(pieces) == s
    &&& forall|k: int| 0 <= k < pieces.len() ==> !(#[trigger] pieces[k]).contains(' ')
}

/// Splitting at spaces loses nothing: the pieces hold no space and joining them with single
/// spaces gives the text back.
pub proof fn law_split_rejoins(s: Seq<char>)
    ensures
        is_space_split(s, split_spaces_spec(s)),
    decreases s.len(),
{
    if s.len() == 0 {
        assert(split_spaces_spec(s) =~= seq![Seq::<char>::empty()]);
        assert(join_spaces(split_spaces_spec(s)) =~= s);
    } else {
        let d = s.drop_last();
        law_split_rejoins(d);
        let prev = split_spaces_spec(d);
        let c = s.last();
        assert(s =~= d.push(c));
        if c == ' ' {
            let ps = prev.push(Seq::<char>::empty());
            assert(ps.drop_last() =~= prev);
            assert(d + seq![' '] + Seq::<char>::empty() =~= s);
            assert(join_spaces(ps) == join_spaces(prev) + seq![' '] + Seq::<char>::empty());
            assert(join_spaces(ps) == s);
            assert forall|k: int| 0 <= k < ps.len() implies !(#[trigger] ps[k]).contains(' ') by {
                if k < prev.len() {
                    assert(ps[k] == prev[k]);
                }
            }
        } else {
            let n = prev.len() - 1;
            let ps = prev.update(n, prev.last().push(c));
            if prev.len() == 1 {
                assert(join_spaces(ps) == ps[0]);
                assert(ps[0] =~= s);
            } else {
                assert(ps.drop_last() =~= prev.drop_last());
                assert(join_spaces(prev) == join_spaces(prev.drop_last()) + seq![' '] + prev.last());
                assert(join_spaces(ps) == join_spaces(ps.drop_last()) + seq![' '] + ps.last());
                assert(ps.last() == prev.last().push(c));
                assert(join_spaces(ps) =~= join_spaces(prev).push(c));
            }
            assert(join_spaces(ps) == s);
            assert forall|k: int| 0 <= k < ps.len() implies !(#[trigger] ps[k]).contains(' ') by {
                if k < n {
                    assert(ps[k] == prev[k]);
                } else {
                    assert(!prev[n].contains(' '));
                    assert forall|x: char| ps[k].contains(x) implies x != ' ' by {
                        let j = choose|j: int| 0 <= j < ps[k].len() && ps[k][j] == x;
                        if j < prev[n].len() {
                            assert(prev[n][j] == x);
                        }
                    }
                }
            }
        }
    }
}

/// The views of a list of strings.
pub open spec fn string_views(v: Seq<String>) -> Seq<Seq<char>> {
    v.map_values(|x: String| x@)
}

/// Splits `s` at each space, keeping empty pieces.
pub fn split_spaces(s: &str) -> (r: Vec<String>)
    ensures
        string_views(r@) == split_spaces_spec(s@),
{
    let n = s.unicode_len();
    let mut done: Vec<String> = Vec::new();
    let mut start: usize = 0;
    let mut i: usize = 0;
    assert(s@.take(0) =~= Seq::<char>::empty());
    assert(string_views(done@).push(s@.subrange(0, 0)) =~= seq![Seq::<char>::empty()]);
    while i < n
        invariant
            n == s@.len(),
            start <= i <= n,
            string_views(done@).push(s@.subrange(start as int, i as int)) == split_spaces_spec(
                s@.take(i as int),
            ),
        decreases n - i,
    {
        let c = s.get_char(i);
        let ghost old_views = string_views(done@);
        let ghost piece = s@.subrange(start as int, i as int);
        let ghost t = s@.take(i + 1);
        assert(t.drop_last() =~= s@.take(i as int));
        assert(t.last() == c);
        if c == ' ' {
            let part = String::from_str(s.substring_char(start, i));
            done.push(part);
            start = i + 1;
            proof {
                assert(string_views(done@) =~= old_views.push(piece));
                assert(s@.subrange(start as int, (i + 1) as int) =~= Seq::<char>::empty());
            }
        } else {
            proof {
                let piece2 = s@.subrange(start as int, (i + 1) as int);
                assert(piece2 =~= piece.push(c));
                assert(old_views.push(piece2) =~= old_views.push(piece).update(
                    old_views.len() as int,
                    piece.push(c),
                ));
            }
        }
        i = i + 1;
    }
    let last = String::from_str(s.substring_char(start, n));
    let ghost before = string_views(done@);
    done.push(last);
    assert(string_views(done@) =~= before.push(s@.subrange(start as int, n as int)));
    assert(s@.take(n as int) =~= s@);
    done
}

} // verus!

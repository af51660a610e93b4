use vstd::prelude::*;
use vstd::string::*;
use vstd::std_specs::iter::IteratorSpec;

verus! {

/// The characters of `s`, in order.
pub fn chars_of(s: &str) -> (r: Vec<char>)
    ensures
        r@ == s@,
{
    let mut r: Vec<char> = Vec::new();
    let it = s.chars();
    for c in iter: it
        invariant
            iter.seq() == s@,
            r@ == iter.seq().take(iter.index()),
    {
        r.push(c);
    }
    r
}

/// `a` followed by `b`.
pub fn concat2(a: &str, b: &str) -> (r: String)
    ensures
        r@ == a@ + b@,
{
    let mut r = a.to_owned();
    r.append(b);
    r
}

/// `p` is a prefix of `s`.
pub open spec fn has_prefix(s: Seq<char>, p: Seq<char>) -> bool {
    p.len() <= s.len() && s.subrange(0, p.len() as int) == p
}

/// Tells whether `s` starts with `p`.
pub fn starts_with(s: &str, p: &str) -> (r: bool)
    ensures
        r == has_prefix(s@, p@),
{
    let sc = chars_of(s);
    let pc = chars_of(p);
    if pc.len() > sc.len() {
        return false;
    }
    let mut i: usize = 0;
    while i < pc.len()
        invariant
            i <= pc@.len() <= sc@.len(),
            sc@ == s@,
            pc@ == p@,
            forall|j: int| 0 <= j < i ==> sc@[j] == pc@[j],
        decreases pc.len() - i,
    {
        if sc[i] != pc[i] {
            assert(s@.subrange(0, p@.len() as int)[i as int] != p@[i as int]);
            return false;
        }
        i += 1;
    }
    assert(s@.subrange(0, p@.len() as int) =~= p@);
    true
}

/// Relies on `FromIterator<char>` for `String`: the string made of the given characters.
#[verifier::external_body]
fn string_from_chars(v: &[char]) -> (r: String)
    ensures
        r@ == v@,
{
    v.iter().collect()
}

/// The characters of `s` from position `start` on.
pub fn suffix_from(s: &str, start: usize) -> (r: String)
    requires
        start <= s@.len(),
    ensures
        r@ == s@.subrange(start as int, s@.len() as int),
{
    let sc = chars_of(s);
    let tail = slice_from(&sc, start);
    string_from_chars(tail.as_slice())
}

fn slice_from(v: &Vec<char>, start: usize) -> (r: Vec<char>)
    requires
        start <= v@.len(),
    ensures
        r@ == v@.subrange(start as int, v@.len() as int),
{
    let mut r: Vec<char> = Vec::new();
    let mut i: usize = start;
    while i < v.len()
        invariant
            start <= i <= v@.len(),
            r@ == v@.subrange(start as int, i as int),
        decreases v.len() - i,
    {
        r.push(v[i]);
        i += 1;
        assert(r@ =~= v@.subrange(start as int, i as int));
    }
    r
}

pub open spec fn is_digit(c: char) -> bool {
    '0' <= c && c <= '9'
}

/// The number that the decimal digits `s` write.
pub open spec fn digits_value(s: Seq<char>) -> int
    decreases s.len(),
{
    if s.len() == 0 {
        0
    } else {
        digits_value(s.drop_last()) * 10 + (s.last() as int - '0' as int)
    }
}

/// `s` is one or more decimal digits.
pub open spec fn all_digits(s: Seq<char>) -> bool {
    s.len() > 0 && forall|i: int| 0 <= i < s.len() ==> is_digit(#[trigger] s[i])
}

/// The integer that `s` writes in decimal, with an optional leading sign.
pub open spec fn decimal_value(s: Seq<char>) -> Option<int> {
    if s.len() > 0 && (s[0] == '-' || s[0] == '+') {
        if all_digits(s.drop_first()) {
            if s[0] == '-' {
                Some(-digits_value(s.drop_first()))
            } else {
                Some(digits_value(s.drop_first()))
            }
        } else {
            None
        }
    } else if all_digits(s) {
        Some(digits_value(s))
    } else {
        None
    }
}

/// The `i32` that `s` writes, if it writes one in range.
pub open spec fn i32_value(s: Seq<char>) -> Option<i32> {
    match decimal_value(s) {
        Some(v) => if i32::MIN <= v <= i32::MAX {
            Some(v as i32)
        } else {
            None
        },
        None => None,
    }
}

proof fn lemma_digits_grow(t: Seq<char>, k: int)
    requires
        0 <= k <= t.len(),
        forall|i: int| 0 <= i < t.len() ==> is_digit(#[trigger] t[i]),
    ensures
        digits_value(t) >= digits_value(t.subrange(0, k)) >= 0,
    decreases t.len(),
{
    if t.len() > 0 {
        let d = t.drop_last();
        if k == t.len() {
            assert(t.subrange(0, k) =~= t);
            lemma_digits_grow(d, 0);
        } else {
            lemma_digits_grow(d, k);
            assert(d.subrange(0, k) =~= t.subrange(0, k));
        }
    } else {
        assert(t.subrange(0, k) =~= t);
    }
}

/// Reads an `i32` written in decimal, with an optional leading sign.
pub fn parse_i32(s: &Vec<char>) -> (r: Option<i32>)
    ensures
        r == i32_value(s@),
{
    let n = s.len();
    if n == 0 {
        return None;
    }
    let signed = s[0] == '-' || s[0] == '+';
    assert(signed == (s@[0] == '-' || s@[0] == '+'));
    let start: usize = if signed { 1 } else { 0 };
    let ghost body = s@.subrange(start as int, n as int);
    proof {
        if signed {
            assert(body =~= s@.drop_first());
        } else {
            assert(body =~= s@);
        }
    }
    if start == n {
        return None;
    }
    let mut acc: i64 = 0;
    let mut i: usize = start;
    while i < n
        invariant
            start <= i <= n == s@.len(),
            body == s@.subrange(start as int, n as int),
            signed ==> body == s@.drop_first(),
            !signed ==> body == s@,
            signed == (s@[0] == '-' || s@[0] == '+'),
            0 <= acc <= 2147483648,
            acc == digits_value(s@.subrange(start as int, i as int)),
            forall|k: int| start <= k < i ==> is_digit(#[trigger] s@[k]),
        decreases n - i,
    {
        let c = s[i];
        if !(c >= '0' && c <= '9') {
            proof {
                assert(body[i - start] == s@[i as int]);
                assert(!is_digit(body[i - start]));
                assert(!all_digits(body));
                if signed {
                    assert(!all_digits(s@.drop_first()));
                } else {
                    assert(!all_digits(s@));
                }
                assert(decimal_value(s@) is None);
            }
            return None;
        }
        let d = (c as u32 - '0' as u32) as i64;
        assert(s@.subrange(start as int, i + 1).drop_last() =~= s@.subrange(start as int, i as int));
        assert(s@.subrange(start as int, i + 1).last() == c);
        acc = acc * 10 + d;
        assert(acc == digits_value(s@.subrange(start as int, i + 1)));
        if acc > 2147483648 {
            proof {
                if all_digits(body) {
                    lemma_digits_grow(body, i + 1 - start);
                    assert(body.subrange(0, i + 1 - start) =~= s@.subrange(start as int, i + 1));
                    assert(digits_value(body) > 2147483648);
                    if signed {
                        assert(body == s@.drop_first());
                    } else {
                        assert(body == s@);
                    }
                    assert(decimal_value(s@) is Some);
                }
            }
            return None;
        }
        i += 1;
    }
    proof {
        assert(s@.subrange(start as int, i as int) =~= body);
        assert(forall|k: int| 0 <= k < body.len() ==> body[k] == s@[start + k]);
    }
    let v: i64 = if s[0] == '-' { -acc } else { acc };
    if v < -2147483648 || v > 2147483647 {
        None
    } else {
        Some(v as i32)
    }
}

/// The pieces of `s` between the occurrences of `sep`; there is always at
/// least one.
pub open spec fn fields(s: Seq<char>, sep: char) -> Seq<Seq<char>>
    decreases s.len(),
{
    if s.len() == 0 {
        seq![seq![]]
    } else {
        let f = fields(s.drop_last(), sep);
        if s.last() == sep {
            f.push(seq![])
        } else {
            f.update(f.len() - 1, f.last().push(s.last()))
        }
    }
}

/// Every piece of `s` between occurrences of `sep` writes an `i32`.
pub open spec fn all_i32(fs: Seq<Seq<char>>) -> bool {
    forall|i: int| 0 <= i < fs.len() ==> (#[trigger] i32_value(fs[i])) is Some
}

/// Reads the `i32` values that `s` writes between occurrences of `sep`, when
/// every piece writes one.
pub fn parse_i32_fields(s: &str, sep: char) -> (r: Option<Vec<i32>>)
    ensures
        r is Some <==> all_i32(fields(s@, sep)),
        r matches Some(v) ==> v@.len() == fields(s@, sep).len() && forall|k: int|
            0 <= k < v@.len() ==> i32_value(#[trigger] fields(s@, sep)[k]) == Some(v@[k]),
{
    let sc = chars_of(s);
    let mut values: Vec<i32> = Vec::new();
    let mut cur: Vec<char> = Vec::new();
    let mut ok = true;
    let mut i: usize = 0;
    proof {
        assert(sc@.take(0) =~= Seq::<char>::empty());
    }
    while i < sc.len()
        invariant
            i <= sc@.len(),
            sc@ == s@,
            fields(sc@.take(i as int), sep).len() >= 1,
            cur@ == fields(sc@.take(i as int), sep).last(),
            ok <==> all_i32(fields(sc@.take(i as int), sep).drop_last()),
            ok ==> values@.len() == fields(sc@.take(i as int), sep).len() - 1,
            ok ==> forall|k: int|
                0 <= k < values@.len() ==> i32_value(
                    #[trigger] fields(sc@.take(i as int), sep)[k],
                ) == Some(values@[k]),
        decreases sc.len() - i,
    {
        let c = sc[i];
        let ghost t = sc@.take(i as int);
        let ghost f = fields(t, sep);
        assert(sc@.take(i + 1).drop_last() =~= t);
        assert(sc@.take(i + 1).last() == c);
        if c == sep {
            let p = parse_i32(&cur);
            match p {
                Some(x) => {
                    if ok {
                        values.push(x);
                    }
                },
                None => {
                    ok = false;
                },
            }
            cur = Vec::new();
            proof {
                let g = fields(sc@.take(i + 1), sep);
                assert(g == f.push(seq![]));
                assert(g.drop_last() =~= f);
                assert(f =~= f.drop_last().push(f.last()));
                if ok {
                    assert forall|k: int| 0 <= k < g.drop_last().len() implies (#[trigger] i32_value(
                        g.drop_last()[k],
                    )) is Some by {
                        if k < f.len() - 1 {
                            assert(f.drop_last()[k] == f[k]);
                        }
                    }
                } else {
                    if p is Some {
                        let k = choose|k: int| 0 <= k < f.drop_last().len() && !((#[trigger] i32_value(
                            f.drop_last()[k],
                        )) is Some);
                        assert(g.drop_last()[k] == f.drop_last()[k]);
                    } else {
                        assert(!(i32_value(g.drop_last()[f.len() - 1]) is Some));
                    }
                }
                assert(cur@ =~= g.last());
            }
        } else {
            cur.push(c);
            proof {
                let g = fields(sc@.take(i + 1), sep);
                assert(g == f.update(f.len() - 1, f.last().push(c)));
                assert(g.drop_last() =~= f.drop_last());
            }
        }
        i += 1;
    }
    let ghost f = fields(sc@.take(i as int), sep);
    assert(sc@.take(i as int) =~= s@);
    let last = parse_i32(&cur);
    if !ok {
        proof {
            let k = choose|k: int| 0 <= k < f.drop_last().len() && !((#[trigger] i32_value(f.drop_last()[k])) is Some);
            assert(f.drop_last()[k] == f[k]);
        }
        return None;
    }
    match last {
        Some(x) => {
            values.push(x);
            proof {
                assert forall|k: int| 0 <= k < f.len() implies (#[trigger] i32_value(f[k])) is Some by {
                    if k < f.len() - 1 {
                        assert(f.drop_last()[k] == f[k]);
                    }
                }
            }
            Some(values)
        },
        None => {
            assert(!(i32_value(f[f.len() - 1]) is Some));
            None
        },
    }
}

} // verus!

//! Version triples and their textual form.

use vstd::prelude::*;

verus! {

/// Largest value a single version component may hold.
pub const COMPONENT_MAX: u64 = 2147483647;

/// A version triple `major.minor.patch`.
#[derive(Clone, Copy, Debug, PartialEq, Eq, Structural)]
pub struct Version {
    pub major: u64,
    pub minor: u64,
    pub patch: u64,
}

pub open spec fn is_digit(c: char) -> bool {
    '0' <= c && c <= '9'
}

pub open spec fn digit_value(c: char) -> nat {
    (c as nat - '0' as nat) as nat
}

/// The number written by a sequence of decimal digits.
pub open spec fn digits_value(s: Seq<char>) -> nat
    decreases s.len(),
{
    if s.len() == 0 {
        0
    } else {
        digits_value(s.drop_last()) * 10 + digit_value(s.last())
    }
}

pub open spec fn all_digits(s: Seq<char>) -> bool {
    forall|i: int| 0 <= i < s.len() ==> is_digit(#[trigger] s[i])
}

/// A well-formed component: one or more digits whose value fits the bound.
pub open spec fn valid_component(s: Seq<char>) -> bool {
    s.len() > 0 && all_digits(s) && digits_value(s) <= COMPONENT_MAX
}

/// The pieces of `s` between the dots, in order (one more than the number of dots).
pub open spec fn split_dots(s: Seq<char>) -> Seq<Seq<char>>
    decreases s.len(),
{
    if s.len() == 0 {
        seq![Seq::<char>::empty()]
    } else {
        let r = split_dots(s.drop_last());
        if s.last() == '.' {
            r.push(Seq::<char>::empty())
        } else {
            r.update(r.len() - 1, r.last().push(s.last()))
        }
    }
}

/// The text without one leading `v`, if it has one.
pub open spec fn strip_v(s: Seq<char>) -> Seq<char> {
    if s.len() > 0 && s[0] == 'v' {
        s.drop_first()
    } else {
        s
    }
}

/// What a version string denotes: an optional `v`, then exactly three
/// well-formed components separated by dots; anything else is no version.
pub open spec fn spec_parse(s: Seq<char>) -> Option<Version> {
    let f = split_dots(strip_v(s));
    if f.len() == 3 && valid_component(f[0]) && valid_component(f[1]) && valid_component(f[2]) {
        Some(
            Version {
                major: digits_value(f[0]) as u64,
                minor: digits_value(f[1]) as u64,
                patch: digits_value(f[2]) as u64,
            },
        )
    } else {
        None
    }
}

/// A component that is not (yet) acceptable, and cannot become so by appending digits.
pub open spec fn bad_tail(s: Seq<char>) -> bool {
    !all_digits(s) || digits_value(s) > COMPONENT_MAX
}

proof fn lemma_split_len(s: Seq<char>)
    ensures
        split_dots(s).len() >= 1,
    decreases s.len(),
{
    if s.len() > 0 {
        lemma_split_len(s.drop_last());
    }
}

proof fn lemma_bad_tail_push(s: Seq<char>, c: char)
    requires
        bad_tail(s),
    ensures
        bad_tail(s.push(c)),
{
    assert(s.push(c).drop_last() =~= s);
    if !all_digits(s) {
        let i = choose|i: int| 0 <= i < s.len() && !is_digit(#[trigger] s[i]);
        assert(s.push(c)[i] == s[i]);
    } else if is_digit(c) {
        assert(digits_value(s.push(c)) >= digits_value(s));
    } else {
        assert(s.push(c)[s.len() as int] == c);
    }
}

/// Parses `major.minor.patch`, optionally preceded by `v`.
pub fn parse_version(s: &str) -> (r: Option<Version>)
    ensures
        r == spec_parse(s@),
{
    let n = s.unicode_len();
    let mut i: usize = 0;
    if n > 0 && s.get_char(0) == 'v' {
        i = 1;
    }
    let ghost b = strip_v(s@);
    let ghost off: int = i as int;
    assert(b =~= s@.subrange(off, n as int));
    let mut dots: usize = 0;
    let mut ok: bool = true;
    let mut cur: u64 = 0;
    let mut has_digit: bool = false;
    let mut major: u64 = 0;
    let mut minor: u64 = 0;
    proof {
        assert(b.subrange(0, 0) =~= Seq::<char>::empty());
    }
    while i < n
        invariant
            n == s@.len(),
            0 <= off <= 1,
            off <= i <= n,
            b == s@.subrange(off, n as int),
            b.len() == n - off,
            dots <= i,
            split_dots(b.subrange(0, i - off)).len() == dots + 1,
            ok ==> {
                let f = split_dots(b.subrange(0, i - off));
                &&& forall|k: int| 0 <= k < f.len() - 1 ==> valid_component(#[trigger] f[k])
                &&& all_digits(f.last())
                &&& digits_value(f.last()) == cur
                &&& cur <= COMPONENT_MAX
                &&& has_digit == (f.last().len() > 0)
                &&& dots >= 1 ==> major == digits_value(f[0])
                &&& dots >= 2 ==> minor == digits_value(f[1])
            },
            !ok ==> {
                let f = split_dots(b.subrange(0, i - off));
                (exists|k: int| 0 <= k < f.len() - 1 && !valid_component(#[trigger] f[k]))
                    || bad_tail(f.last())
            },
        decreases n - i,
    {
        let c = s.get_char(i);
        let ghost pre = b.subrange(0, i - off);
        let ghost post = b.subrange(0, i + 1 - off);
        let ghost f = split_dots(pre);
        proof {
            assert(c == b[i - off]);
            assert(post.drop_last() =~= pre);
            assert(post.last() == c);
        }
        if c == '.' {
            proof {
                assert(split_dots(post) == f.push(Seq::<char>::empty()));
                let g = split_dots(post);
                assert(g[g.len() - 1] =~= Seq::<char>::empty());
                if !ok {
                    if !(exists|k: int| 0 <= k < f.len() - 1 && !valid_component(#[trigger] f[k])) {
                        assert(bad_tail(f.last()));
                        assert(!valid_component(g[f.len() - 1]));
                    } else {
                        let k = choose|k: int| 0 <= k < f.len() - 1 && !valid_component(#[trigger] f[k]);
                        assert(g[k] == f[k]);
                    }
                } else if has_digit {
                    assert forall|k: int| 0 <= k < g.len() - 1 implies valid_component(#[trigger] g[k]) by {
                        assert(g[k] == f[k]);
                    }
                }
            }
            if ok && !has_digit {
                ok = false;
                proof {
                    let g = split_dots(post);
                    assert(g[f.len() - 1] == f.last());
                }
            } else if ok {
                if dots == 0 {
                    major = cur;
                } else if dots == 1 {
                    minor = cur;
                }
            }
            dots = dots + 1;
            cur = 0;
            has_digit = false;
        } else {
            let ghost t = f.last().push(c);
            proof {
                assert(split_dots(post) == f.update(f.len() - 1, t));
                assert(t.drop_last() =~= f.last());
                assert(t[t.len() - 1] == c);
                let g = split_dots(post);
                assert forall|k: int| 0 <= k < g.len() - 1 implies g[k] == f[k] by {}
                if !ok && !(exists|k: int| 0 <= k < f.len() - 1 && !valid_component(#[trigger] f[k])) {
                    lemma_bad_tail_push(f.last(), c);
                } else if !ok {
                    let k = choose|k: int| 0 <= k < f.len() - 1 && !valid_component(#[trigger] f[k]);
                    assert(g[k] == f[k]);
                }
            }
            if ok {
                if '0' <= c && c <= '9' {
                    let d: u64 = (c as u32 - '0' as u32) as u64;
                    assert(d == digit_value(c));
                    if cur > (COMPONENT_MAX - d) / 10 {
                        ok = false;
                        assert(cur * 10 + d > COMPONENT_MAX) by (nonlinear_arith)
                            requires
                                cur > (COMPONENT_MAX - d) / 10,
                                d <= 9,
                        ;
                    } else {
                        assert(cur * 10 + d <= COMPONENT_MAX) by (nonlinear_arith)
                            requires
                                cur <= (COMPONENT_MAX - d) / 10,
                                d <= 9,
                        ;
                        cur = cur * 10 + d;
                        has_digit = true;
                        assert(all_digits(t)) by {
                            assert forall|j: int| 0 <= j < t.len() implies is_digit(#[trigger] t[j]) by {
                                if j < t.len() - 1 {
                                    assert(t[j] == f.last()[j]);
                                }
                            }
                        }
                    }
                } else {
                    ok = false;
                }
            }
        }
        i = i + 1;
    }
    assert(b.subrange(0, n - off) =~= b);
    if ok && dots == 2 && has_digit {
        Some(Version { major, minor, patch: cur })
    } else {
        None
    }
}

} // verus!

//! Text helpers: words split at white space, substrings, and strings made
//! of characters.
use vstd::prelude::*;
use vstd::string::StringExecFns;
use crate::collections::str_views;

verus! {

/// Whether `c` is white space: Unicode's White_Space property, which is what
/// `char::is_whitespace` decides. Its code points are U+0009 to U+000D,
/// U+0020, U+0085, U+00A0, U+1680, U+2000 to U+200A, U+2028, U+2029, U+202F,
/// U+205F and U+3000.
pub open spec fn is_white(c: char) -> bool {
    let n = c as u32;
    ||| 0x9 <= n <= 0xD
    ||| n == 0x20
    ||| n == 0x85
    ||| n == 0xA0
    ||| n == 0x1680
    ||| 0x2000 <= n <= 0x200A
    ||| n == 0x2028
    ||| n == 0x2029
    ||| n == 0x202F
    ||| n == 0x205F
    ||| n == 0x3000
}

/// Whether `c` is white space, as `char::is_whitespace` answers.
pub fn char_is_whitespace(c: char) -> (r: bool)
    ensures
        r == is_white(c),
{
    let n = c as u32;
    (0x9 <= n && n <= 0xD) || n == 0x20 || n == 0x85 || n == 0xA0 || n == 0x1680
        || (0x2000 <= n && n <= 0x200A) || n == 0x2028 || n == 0x2029 || n == 0x202F
        || n == 0x205F || n == 0x3000
}

/// The words of `s` read so far: the finished words and the one under way.
pub open spec fn words_fold(s: Seq<char>) -> (Seq<Seq<char>>, Seq<char>)
    decreases s.len(),
{
    if s.len() == 0 {
        (Seq::empty(), Seq::empty())
    } else {
        let (done, cur) = words_fold(s.drop_last());
        let c = s.last();
        if is_white(c) {
            if cur.len() > 0 { (done.push(cur), Seq::empty()) } else { (done, Seq::empty()) }
        } else {
            (done, cur.push(c))
        }
    }
}

/// The words of `s`: its longest runs of characters that are not white space, in order.
pub open spec fn words(s: Seq<char>) -> Seq<Seq<char>> {
    let (done, cur) = words_fold(s);
    if cur.len() > 0 { done.push(cur) } else { done }
}

/// The words of `s`, as `str::split_whitespace` yields them.
pub fn split_whitespace(s: &str) -> (r: Vec<String>)
    ensures
        str_views(r@) == words(s@),
{
    let mut done: Vec<String> = Vec::new();
    let mut cur = String::new();
    let ghost mut seen: Seq<char> = Seq::empty();
    for c in it: s.chars()
        invariant
            it.seq() == s@,
            seen == s@.take(it.index() as int),
            str_views(done@) == words_fold(seen).0,
            cur@ == words_fold(seen).1,
    {
        proof {
            assert(s@.take(it.index() + 1).drop_last() =~= seen);
            assert(s@.take(it.index() + 1).last() == c);
        }
        if char_is_whitespace(c) {
            if cur.unicode_len() > 0 {
                let w = cur;
                let ghost wv = w@;
                done.push(w);
                cur = String::new();
                proof {
                    assert(str_views(done@) =~= words_fold(seen).0.push(wv));
                }
            } else {
                cur = String::new();
            }
        } else {
            let one = char_string(c);
            cur.append(one.as_str());
        }
        proof {
            seen = s@.take(it.index() + 1);
        }
    }
    proof {
        assert(seen =~= s@);
    }
    if cur.unicode_len() > 0 {
        let ghost wv = cur@;
        done.push(cur);
        proof {
            assert(str_views(done@) =~= words_fold(s@).0.push(wv));
        }
    }
    done
}

/// `char::to_string`: the string of the one character `c`.
#[verifier::external_body]
pub(crate) fn char_string(c: char) -> (r: String)
    ensures
        r@ == seq![c],
{
    c.to_string()
}

/// Whether `needle` occurs in `hay`.
pub open spec fn occurs_in(needle: Seq<char>, hay: Seq<char>) -> bool {
    exists|i: int| 0 <= i && i + needle.len() <= hay.len() && #[trigger] hay.subrange(i, i + needle.len()) == needle
}

/// Whether `needle` occurs in `hay`.
pub fn str_contains(hay: &str, needle: &str) -> (r: bool)
    ensures
        r == occurs_in(needle@, hay@),
{
    let h = chars_of(hay);
    let n = chars_of(needle);
    if n.len() > h.len() {
        proof {
            if occurs_in(needle@, hay@) {
                let i = choose|i: int| 0 <= i && i + needle@.len() <= hay@.len()
                    && #[trigger] hay@.subrange(i, i + needle@.len()) == needle@;
            }
        }
        return false;
    }
    let mut i: usize = 0;
    while i <= h.len() - n.len()
        invariant
            h@ == hay@,
            n@ == needle@,
            n@.len() <= h@.len(),
            i <= h@.len() - n@.len() + 1,
            forall|j: int| 0 <= j < i ==> #[trigger] h@.subrange(j, j + n@.len()) != n@,
        decreases h@.len() - i,
    {
        let mut k: usize = 0;
        let mut same = true;
        while k < n.len()
            invariant
                h@ == hay@,
                n@ == needle@,
                i + n@.len() <= h@.len(),
                n@.len() <= h@.len(),
                k <= n@.len(),
                same == (forall|t: int| 0 <= t < k ==> h@[i + t] == n@[t]),
            decreases n@.len() - k,
        {
            assert(i + k < h.len());
            let idx: usize = i + k;
            if h[idx] != n[k] {
                same = false;
            }
            k = k + 1;
        }
        if same {
            proof {
                assert(h@.subrange(i as int, i + n@.len()) =~= n@);
            }
            return true;
        }
        proof {
            let t = choose|t: int| 0 <= t < n@.len() && h@[i + t] != n@[t];
            assert(h@.subrange(i as int, i + n@.len())[t] != n@[t]);
        }
        i = i + 1;
    }
    proof {
        if occurs_in(needle@, hay@) {
            let j = choose|j: int| 0 <= j && j + needle@.len() <= hay@.len()
                && #[trigger] hay@.subrange(j, j + needle@.len()) == needle@;
            assert(j < i);
        }
    }
    false
}

/// `s` with every occurrence of `p` taken out, matched from the left
/// without overlap, as `str::replace(p, "")` does; an empty `p` takes
/// nothing out.
pub open spec fn remove_all(s: Seq<char>, p: Seq<char>) -> Seq<char>
    decreases s.len(),
{
    if p.len() == 0 || s.len() == 0 {
        s
    } else if s.len() >= p.len() && s.take(p.len() as int) == p {
        remove_all(s.skip(p.len() as int), p)
    } else {
        seq![s[0]] + remove_all(s.skip(1), p)
    }
}

/// Whether `p` occurs in `s` at `i`.
fn occurs_at(s: &Vec<char>, p: &Vec<char>, i: usize) -> (r: bool)
    requires
        i <= s@.len(),
    ensures
        r == (s@.len() - i >= p@.len() && s@.skip(i as int).take(p@.len() as int) == p@),
{
    let n = s.len();
    if n - i < p.len() {
        return false;
    }
    let mut k: usize = 0;
    while k < p.len()
        invariant
            n == s@.len(),
            i <= s@.len(),
            s@.len() - i >= p@.len(),
            k <= p@.len(),
            forall|j: int| 0 <= j < k ==> s@[i + j] == p@[j],
        decreases p@.len() - k,
    {
        if s[i + k] != p[k] {
            proof {
                assert(s@.skip(i as int).take(p@.len() as int)[k as int] != p@[k as int]);
            }
            return false;
        }
        k = k + 1;
    }
    proof {
        assert(s@.skip(i as int).take(p@.len() as int) =~= p@);
    }
    true
}

/// `s` with every occurrence of `p` taken out, as `s.replace(p, "")` gives it.
pub fn remove_all_of(s: &str, p: &str) -> (r: String)
    ensures
        r@ == remove_all(s@, p@),
{
    let cs = chars_of(s);
    let ps = chars_of(p);
    if ps.len() == 0 {
        return string_of(&cs);
    }
    let mut out: Vec<char> = Vec::new();
    let mut i: usize = 0;
    proof {
        assert(cs@.skip(0) =~= cs@);
        assert(out@ + remove_all(cs@, ps@) =~= remove_all(cs@, ps@));
    }
    while i < cs.len()
        invariant
            cs@ == s@,
            ps@ == p@,
            ps@.len() > 0,
            i <= cs@.len(),
            out@ + remove_all(cs@.skip(i as int), ps@) == remove_all(cs@, ps@),
        decreases cs@.len() - i,
    {
        let ghost rest = cs@.skip(i as int);
        if occurs_at(&cs, &ps, i) {
            proof {
                assert(rest.skip(ps@.len() as int) =~= cs@.skip(i + ps@.len()));
            }
            i = i + ps.len();
        } else {
            proof {
                assert(rest.skip(1) =~= cs@.skip(i + 1));
                assert(rest[0] == cs@[i as int]);
                assert(out@.push(cs@[i as int]) + remove_all(cs@.skip(i + 1), ps@)
                    =~= out@ + (seq![rest[0]] + remove_all(rest.skip(1), ps@)));
            }
            out.push(cs[i]);
            i = i + 1;
        }
    }
    proof {
        assert(cs@.skip(i as int) =~= Seq::<char>::empty());
        assert(out@ + Seq::<char>::empty() =~= out@);
    }
    string_of(&out)
}

/// The characters of a string.
pub fn chars_of(s: &str) -> (r: Vec<char>)
    ensures
        r@ == s@,
{
    let mut r: Vec<char> = Vec::new();
    for c in it: s.chars()
        invariant
            it.seq() == s@,
            r@ == s@.take(it.index() as int),
    {
        r.push(c);
        proof {
            assert(r@ =~= s@.take(it.index() + 1));
        }
    }
    proof {
        assert(s@.take(s@.len() as int) =~= s@);
    }
    r
}


/// The string of the characters `cs`.
pub fn string_of(cs: &Vec<char>) -> (r: String)
    ensures
        r@ == cs@,
{
    let mut r = String::new();
    let mut i: usize = 0;
    while i < cs.len()
        invariant
            i <= cs@.len(),
            r@ == cs@.take(i as int),
        decreases cs@.len() - i,
    {
        let one = char_string(cs[i]);
        r.append(one.as_str());
        i = i + 1;
        proof {
            assert(r@ =~= cs@.take(i as int));
        }
    }
    proof {
        assert(cs@.take(cs@.len() as int) =~= cs@);
    }
    r
}

/// The words of the characters `cs`, as `split_whitespace` finds them.
pub fn split_whitespace_chars(cs: &Vec<char>) -> (r: Vec<Vec<char>>)
    ensures
        r@.map_values(|w: Vec<char>| w@) == words(cs@),
{
    let mut done: Vec<Vec<char>> = Vec::new();
    let mut cur: Vec<char> = Vec::new();
    let mut i: usize = 0;
    while i < cs.len()
        invariant
            i <= cs@.len(),
            done@.map_values(|w: Vec<char>| w@) == words_fold(cs@.take(i as int)).0,
            cur@ == words_fold(cs@.take(i as int)).1,
        decreases cs@.len() - i,
    {
        let c = cs[i];
        proof {
            assert(cs@.take(i + 1).drop_last() =~= cs@.take(i as int));
            assert(cs@.take(i + 1).last() == c);
        }
        if char_is_whitespace(c) {
            if cur.len() > 0 {
                let ghost d0 = done@;
                let ghost wv = cur@;
                let w = cur;
                done.push(w);
                cur = Vec::new();
                proof {
                    assert(done@.map_values(|w: Vec<char>| w@) =~= d0.map_values(|w: Vec<char>| w@).push(wv));
                }
            } else {
                cur = Vec::new();
            }
        } else {
            cur.push(c);
        }
        i = i + 1;
    }
    proof {
        assert(cs@.take(cs@.len() as int) =~= cs@);
    }
    if cur.len() > 0 {
        let ghost d0 = done@;
        let ghost wv = cur@;
        done.push(cur);
        proof {
            assert(done@.map_values(|w: Vec<char>| w@) =~= d0.map_values(|w: Vec<char>| w@).push(wv));
        }
    }
    done
}

} // verus!

use vstd::prelude::*;
use vstd::string::StrSliceExecFns;

verus! {

/// The whitespace characters the splitter recognizes: the Unicode
/// white-space set.
pub open spec fn is_space(c: char) -> bool {
    ||| c == '\u{0009}'
    ||| c == '\u{000a}'
    ||| c == '\u{000b}'
    ||| c == '\u{000c}'
    ||| c == '\u{000d}'
    ||| c == ' '
    ||| c == '\u{0085}'
    ||| c == '\u{00a0}'
    ||| c == '\u{1680}'
    ||| c == '\u{2000}'
    ||| c == '\u{2001}'
    ||| c == '\u{2002}'
    ||| c == '\u{2003}'
    ||| c == '\u{2004}'
    ||| c == '\u{2005}'
    ||| c == '\u{2006}'
    ||| c == '\u{2007}'
    ||| c == '\u{2008}'
    ||| c == '\u{2009}'
    ||| c == '\u{200a}'
    ||| c == '\u{2028}'
    ||| c == '\u{2029}'
    ||| c == '\u{202f}'
    ||| c == '\u{205f}'
    ||| c == '\u{3000}'
}

/// Whether `c` is whitespace.
fn is_space_char(c: char) -> (r: bool)
    ensures
        r == is_space(c),
{
    match c {
        '\u{0009}' | '\u{000a}' | '\u{000b}' | '\u{000c}' | '\u{000d}' | ' ' => true,
        '\u{0085}' | '\u{00a0}' | '\u{1680}' => true,
        '\u{2000}' | '\u{2001}' | '\u{2002}' | '\u{2003}' | '\u{2004}' | '\u{2005}' => true,
        '\u{2006}' | '\u{2007}' | '\u{2008}' | '\u{2009}' | '\u{200a}' => true,
        '\u{2028}' | '\u{2029}' | '\u{202f}' | '\u{205f}' | '\u{3000}' => true,
        _ => false,
    }
}

/// The text without its leading whitespace.
pub open spec fn trim_start_spec(s: Seq<char>) -> Seq<char>
    decreases s.len(),
{
    if s.len() == 0 {
        s
    } else if is_space(s[0]) {
        trim_start_spec(s.drop_first())
    } else {
        s
    }
}

/// The text without its trailing whitespace.
pub open spec fn trim_end_spec(s: Seq<char>) -> Seq<char>
    decreases s.len(),
{
    if s.len() == 0 {
        s
    } else if is_space(s.last()) {
        trim_end_spec(s.drop_last())
    } else {
        s
    }
}

/// The text without its leading and trailing whitespace.
pub open spec fn trim_spec(s: Seq<char>) -> Seq<char> {
    trim_end_spec(trim_start_spec(s))
}

/// Trims leading and trailing whitespace.
fn trim_str(s: &str) -> (r: String)
    ensures
        r@ == trim_spec(s@),
{
    let n = s.unicode_len();
    let mut a: usize = 0;
    proof {
        assert(s@.skip(0) =~= s@);
    }
    while a < n
        invariant
            a <= n,
            n == s@.len(),
            trim_start_spec(s@) == trim_start_spec(s@.skip(a as int)),
        ensures
            a <= n,
            trim_start_spec(s@) == trim_start_spec(s@.skip(a as int)),
            a == n || !is_space(s@[a as int]),
        decreases n - a,
    {
        if !is_space_char(s.get_char(a)) {
            break ;
        }
        proof {
            assert(s@.skip(a as int)[0] == s@[a as int]);
            assert(s@.skip(a as int).drop_first() =~= s@.skip(a as int + 1));
        }
        a += 1;
    }
    let mut b: usize = n;
    while b > a
        invariant
            a <= b <= n,
            n == s@.len(),
            trim_end_spec(s@.subrange(a as int, n as int)) == trim_end_spec(
                s@.subrange(a as int, b as int),
            ),
        ensures
            a <= b <= n,
            trim_end_spec(s@.subrange(a as int, n as int)) == trim_end_spec(
                s@.subrange(a as int, b as int),
            ),
            b == a || !is_space(s@[b - 1]),
        decreases b,
    {
        if !is_space_char(s.get_char(b - 1)) {
            break ;
        }
        proof {
            assert(s@.subrange(a as int, b as int).last() == s@[b - 1]);
            assert(s@.subrange(a as int, b as int).drop_last() =~= s@.subrange(
                a as int,
                b as int - 1,
            ));
        }
        b -= 1;
    }
    proof {
        if a == n {
            assert(s@.skip(a as int) =~= Seq::<char>::empty());
            assert(s@.subrange(a as int, b as int) =~= Seq::<char>::empty());
            assert(trim_spec(s@) =~= s@.subrange(a as int, b as int));
        } else {
            assert(trim_start_spec(s@.skip(a as int)) == s@.skip(a as int));
            assert(s@.skip(a as int) =~= s@.subrange(a as int, n as int));
            if b == a {
                assert(s@.subrange(a as int, b as int) =~= Seq::<char>::empty());
            } else {
                assert(s@.subrange(a as int, b as int).last() == s@[b - 1]);
            }
            assert(trim_spec(s@) == s@.subrange(a as int, b as int));
        }
    }
    s.substring_char(a, b).to_owned()
}

/// The maximal whitespace-free runs of the text, in order; whitespace only
/// separates, it never appears in a run and never yields an empty run.
pub open spec fn split_ws(s: Seq<char>) -> Seq<Seq<char>>
    decreases s.len(),
{
    if s.len() == 0 {
        Seq::empty()
    } else if is_space(s[0]) {
        split_ws(s.drop_first())
    } else {
        let tail = split_ws(s.drop_first());
        if s.len() >= 2 && !is_space(s[1]) {
            seq![seq![s[0]] + tail[0]] + tail.drop_first()
        } else {
            seq![seq![s[0]]] + tail
        }
    }
}

/// A whitespace-free run followed by a boundary is one whole piece of the
/// splitting.
proof fn lemma_split_ws_token(s: Seq<char>, j: int)
    requires
        0 < j <= s.len(),
        forall|k: int| 0 <= k < j ==> !is_space(#[trigger] s[k]),
        j == s.len() || is_space(s[j]),
    ensures
        split_ws(s) == seq![s.take(j)] + split_ws(s.skip(j)),
    decreases j,
{
    let tail = split_ws(s.drop_first());
    if j == 1 {
        if s.len() >= 2 && !is_space(s[1]) {
            assert(is_space(s[1]));
        } else {
            assert(s.take(1) =~= seq![s[0]]);
            assert(s.drop_first() =~= s.skip(1));
            assert(split_ws(s) =~= seq![s.take(j)] + split_ws(s.skip(j)));
        }
    } else {
        assert(!is_space(s[1]));
        lemma_split_ws_token(s.drop_first(), j - 1);
        assert(tail == seq![s.drop_first().take(j - 1)] + split_ws(s.drop_first().skip(j - 1)));
        assert(s.drop_first().take(j - 1) =~= s.subrange(1, j));
        assert(s.drop_first().skip(j - 1) =~= s.skip(j));
        assert(tail[0] == s.subrange(1, j));
        assert(tail.drop_first() =~= split_ws(s.skip(j)));
        assert(seq![s[0]] + s.subrange(1, j) =~= s.take(j));
        assert(split_ws(s) =~= seq![s.take(j)] + split_ws(s.skip(j)));
    }
}

/// Splits the text at whitespace into its maximal whitespace-free runs.
fn split_whitespace_vec(s: &str) -> (r: Vec<String>)
    ensures
        r@.map_values(|x: String| x@) == split_ws(s@),
{
    let n = s.unicode_len();
    let mut out: Vec<String> = Vec::new();
    let mut i: usize = 0;
    proof {
        assert(s@.skip(0) =~= s@);
        assert(out@.map_values(|x: String| x@) + split_ws(s@) =~= split_ws(s@));
    }
    while i < n
        invariant
            i <= n,
            n == s@.len(),
            split_ws(s@) == out@.map_values(|x: String| x@) + split_ws(s@.skip(i as int)),
        decreases n - i,
    {
        if is_space_char(s.get_char(i)) {
            proof {
                assert(s@.skip(i as int)[0] == s@[i as int]);
                assert(s@.skip(i as int).drop_first() =~= s@.skip(i as int + 1));
            }
            i += 1;
        } else {
            let mut j: usize = i + 1;
            while j < n
                invariant
                    i < j <= n,
                    n == s@.len(),
                    forall|k: int| i <= k < j ==> !is_space(#[trigger] s@[k]),
                ensures
                    i < j <= n,
                    forall|k: int| i <= k < j ==> !is_space(#[trigger] s@[k]),
                    j == n || is_space(s@[j as int]),
                decreases n - j,
            {
                if is_space_char(s.get_char(j)) {
                    break ;
                }
                j += 1;
            }
            let piece = s.substring_char(i, j).to_owned();
            proof {
                let t = s@.skip(i as int);
                assert forall|k: int| 0 <= k < j - i implies !is_space(#[trigger] t[k]) by {
                    assert(t[k] == s@[i + k]);
                }
                assert(j - i == t.len() || is_space(t[j - i]));
                lemma_split_ws_token(t, j - i);
                assert(t.take(j - i) =~= s@.subrange(i as int, j as int));
                assert(t.skip(j - i) =~= s@.skip(j as int));
                let prev = out@;
                assert(split_ws(s@) == prev.map_values(|x: String| x@) + (seq![
                    s@.subrange(i as int, j as int),
                ] + split_ws(s@.skip(j as int))));
                assert(prev.map_values(|x: String| x@).push(piece@) =~= prev.map_values(
                    |x: String| x@,
                ) + seq![s@.subrange(i as int, j as int)]);
                assert((prev.map_values(|x: String| x@) + seq![s@.subrange(i as int, j as int)])
                    + split_ws(s@.skip(j as int)) =~= prev.map_values(|x: String| x@) + (seq![
                    s@.subrange(i as int, j as int),
                ] + split_ws(s@.skip(j as int))));
                assert(prev.push(piece).map_values(|x: String| x@) =~= prev.map_values(
                    |x: String| x@,
                ).push(piece@));
            }
            out.push(piece);
            i = j;
        }
    }
    proof {
        assert(s@.skip(n as int) =~= Seq::<char>::empty());
        assert(out@.map_values(|x: String| x@) + split_ws(Seq::<char>::empty())
            =~= out@.map_values(|x: String| x@));
    }
    out
}

/// Whether the separator occurs in `s` at position `i`.
pub open spec fn starts_with_at(s: Seq<char>, sep: Seq<char>, i: int) -> bool {
    0 <= i && i + sep.len() <= s.len() && s.subrange(i, i + sep.len() as int) == sep
}

/// The pieces of the text between the occurrences of a non-empty separator,
/// in order: before the first occurrence, between consecutive ones, after
/// the last — one piece more than occurrences, empty pieces kept.
pub open spec fn split_by(s: Seq<char>, sep: Seq<char>) -> Seq<Seq<char>>
    decreases s.len(),
{
    if sep.len() == 0 {
        Seq::empty()
    } else if s.len() < sep.len() {
        seq![s]
    } else if s.take(sep.len() as int) == sep {
        seq![Seq::<char>::empty()] + split_by(s.skip(sep.len() as int), sep)
    } else {
        let rest = split_by(s.drop_first(), sep);
        seq![seq![s[0]] + rest[0]] + rest.drop_first()
    }
}

/// Splitting at the empty separator: an empty piece, then each character
/// alone, then an empty piece.
pub open spec fn split_empty(s: Seq<char>) -> Seq<Seq<char>> {
    seq![Seq::<char>::empty()] + s.map_values(|c: char| seq![c]) + seq![Seq::<char>::empty()]
}

/// The pieces of the text between the occurrences of the separator, the
/// empty separator standing between every two characters and at both ends.
pub open spec fn split_by_full(s: Seq<char>, sep: Seq<char>) -> Seq<Seq<char>> {
    if sep.len() == 0 {
        split_empty(s)
    } else {
        split_by(s, sep)
    }
}

/// Text whose earliest separator occurrence is at `k` splits into the piece
/// before `k` and the pieces of what follows the occurrence.
proof fn lemma_split_by_at(s: Seq<char>, sep: Seq<char>, k: int)
    requires
        sep.len() >= 1,
        starts_with_at(s, sep, k),
        forall|p: int| 0 <= p < k ==> !starts_with_at(s, sep, p),
    ensures
        split_by(s, sep) == seq![s.take(k)] + split_by(s.skip(k + sep.len()), sep),
    decreases k,
{
    if k == 0 {
        assert(s.take(sep.len() as int) =~= s.subrange(0, sep.len() as int));
        assert(s.take(0) =~= Seq::<char>::empty());
        assert(split_by(s, sep) =~= seq![s.take(0)] + split_by(s.skip(sep.len() as int), sep));
    } else {
        assert(!starts_with_at(s, sep, 0));
        assert(s.take(sep.len() as int) =~= s.subrange(0, sep.len() as int));
        let d = s.drop_first();
        assert(d.subrange(k - 1, k - 1 + sep.len()) =~= s.subrange(k, k + sep.len()));
        assert(starts_with_at(d, sep, k - 1));
        assert forall|p: int| 0 <= p < k - 1 implies !starts_with_at(d, sep, p) by {
            if 0 <= p && p + sep.len() <= d.len() {
                assert(d.subrange(p, p + sep.len()) =~= s.subrange(p + 1, p + 1 + sep.len()));
                assert(!starts_with_at(s, sep, p + 1));
            }
        }
        lemma_split_by_at(d, sep, k - 1);
        let rest = split_by(d, sep);
        assert(rest == seq![d.take(k - 1)] + split_by(d.skip(k - 1 + sep.len()), sep));
        assert(rest[0] == d.take(k - 1));
        assert(rest.drop_first() =~= split_by(d.skip(k - 1 + sep.len()), sep));
        assert(d.take(k - 1) =~= s.subrange(1, k));
        assert(d.skip(k - 1 + sep.len()) =~= s.skip(k + sep.len()));
        assert(seq![s[0]] + s.subrange(1, k) =~= s.take(k));
        assert(split_by(s, sep) =~= seq![s.take(k)] + split_by(s.skip(k + sep.len()), sep));
    }
}

/// Text without any separator occurrence is one single piece.
proof fn lemma_split_by_none(s: Seq<char>, sep: Seq<char>)
    requires
        sep.len() >= 1,
        forall|p: int| 0 <= p ==> !starts_with_at(s, sep, p),
    ensures
        split_by(s, sep) == seq![s],
    decreases s.len(),
{
    if s.len() < sep.len() {
    } else {
        assert(!starts_with_at(s, sep, 0));
        assert(s.take(sep.len() as int) =~= s.subrange(0, sep.len() as int));
        let d = s.drop_first();
        assert forall|p: int| 0 <= p implies !starts_with_at(d, sep, p) by {
            if p + sep.len() <= d.len() {
                assert(d.subrange(p, p + sep.len()) =~= s.subrange(p + 1, p + 1 + sep.len()));
                assert(!starts_with_at(s, sep, p + 1));
            }
        }
        lemma_split_by_none(d, sep);
        assert(split_by(d, sep)[0] == d);
        assert(split_by(d, sep).drop_first() =~= Seq::<Seq<char>>::empty());
        assert(seq![s[0]] + d =~= s);
        assert(split_by(s, sep) =~= seq![s]);
    }
}

/// Whether the separator occurs at position `i`.
fn matches_at(s: &str, sep: &str, i: usize) -> (r: bool)
    requires
        i + sep@.len() <= s@.len(),
        s@.len() <= usize::MAX,
    ensures
        r == starts_with_at(s@, sep@, i as int),
{
    let m = sep.unicode_len();
    let mut j: usize = 0;
    while j < m
        invariant
            j <= m,
            m == sep@.len(),
            i + m <= s@.len(),
            s@.len() <= usize::MAX,
            forall|t: int| 0 <= t < j ==> s@[i + t] == sep@[t],
        decreases m - j,
    {
        if s.get_char(i + j) != sep.get_char(j) {
            proof {
                assert(s@.subrange(i as int, i + m as int)[j as int] == s@[i + j]);
            }
            return false;
        }
        j += 1;
    }
    proof {
        assert(s@.subrange(i as int, i + m as int) =~= sep@);
    }
    true
}

/// The earliest occurrence of the separator at or after `from`, if any.
fn find_sep_from(s: &str, sep: &str, from: usize) -> (r: Option<usize>)
    requires
        sep@.len() >= 1,
        from <= s@.len(),
    ensures
        r matches Some(k) ==> (from <= k && k + sep@.len() <= s@.len() && starts_with_at(
            s@,
            sep@,
            k as int,
        ) && forall|p: int| from <= p < k ==> !starts_with_at(s@, sep@, p)),
        r is None ==> forall|p: int| from <= p ==> !starts_with_at(s@, sep@, p),
{
    let n = s.unicode_len();
    let m = sep.unicode_len();
    if n < m {
        return None;
    }
    let mut i: usize = from;
    while i <= n - m
        invariant
            from <= i,
            i <= n + 1,
            m == sep@.len(),
            n == s@.len(),
            m >= 1,
            m <= n,
            forall|p: int| from <= p < i ==> !starts_with_at(s@, sep@, p),
        decreases n - m - i + 1,
    {
        if matches_at(s, sep, i) {
            return Some(i);
        }
        i += 1;
    }
    None
}

/// Splits the text at each occurrence of a non-empty separator.
fn split_by_vec(s: &str, sep: &str) -> (r: Vec<String>)
    requires
        sep@.len() >= 1,
    ensures
        r@.map_values(|x: String| x@) == split_by(s@, sep@),
{
    let n = s.unicode_len();
    let m = sep.unicode_len();
    let mut out: Vec<String> = Vec::new();
    let mut start: usize = 0;
    proof {
        assert(s@.skip(0) =~= s@);
        assert(out@.map_values(|x: String| x@) + split_by(s@, sep@) =~= split_by(s@, sep@));
    }
    loop
        invariant
            start <= n,
            n == s@.len(),
            m == sep@.len(),
            m >= 1,
            split_by(s@, sep@) == out@.map_values(|x: String| x@) + split_by(
                s@.skip(start as int),
                sep@,
            ),
        decreases n - start,
    {
        let ghost prev = out@;
        match find_sep_from(s, sep, start) {
            Some(k) => {
                let piece = s.substring_char(start, k).to_owned();
                proof {
                    let t = s@.skip(start as int);
                    assert(t.subrange(k - start, k - start + m) =~= s@.subrange(
                        k as int,
                        k + m as int,
                    ));
                    assert(starts_with_at(t, sep@, k - start));
                    assert forall|p: int| 0 <= p < k - start implies !starts_with_at(
                        t,
                        sep@,
                        p,
                    ) by {
                        if p + sep@.len() <= t.len() {
                            assert(t.subrange(p, p + sep@.len()) =~= s@.subrange(
                                start + p,
                                start + p + sep@.len(),
                            ));
                            assert(!starts_with_at(s@, sep@, start + p));
                        }
                    }
                    lemma_split_by_at(t, sep@, k - start);
                    assert(t.take(k - start) =~= s@.subrange(start as int, k as int));
                    assert(t.skip(k - start + m) =~= s@.skip(k + m as int));
                    assert(prev.push(piece).map_values(|x: String| x@) =~= prev.map_values(
                        |x: String| x@,
                    ).push(piece@));
                    assert((prev.map_values(|x: String| x@) + seq![piece@]) + split_by(
                        s@.skip(k + m as int),
                        sep@,
                    ) =~= prev.map_values(|x: String| x@) + (seq![piece@] + split_by(
                        s@.skip(k + m as int),
                        sep@,
                    )));
                    assert(prev.map_values(|x: String| x@).push(piece@) =~= prev.map_values(
                        |x: String| x@,
                    ) + seq![piece@]);
                }
                out.push(piece);
                start = k + m;
            },
            None => {
                let piece = s.substring_char(start, n).to_owned();
                proof {
                    let t = s@.skip(start as int);
                    assert forall|p: int| 0 <= p implies !starts_with_at(t, sep@, p) by {
                        if p + sep@.len() <= t.len() {
                            assert(t.subrange(p, p + sep@.len()) =~= s@.subrange(
                                start + p,
                                start + p + sep@.len(),
                            ));
                            assert(!starts_with_at(s@, sep@, start + p));
                        }
                    }
                    lemma_split_by_none(t, sep@);
                    assert(t =~= s@.subrange(start as int, n as int));
                    assert(prev.push(piece).map_values(|x: String| x@) =~= prev.map_values(
                        |x: String| x@,
                    ).push(piece@));
                    assert(prev.map_values(|x: String| x@).push(piece@) =~= prev.map_values(
                        |x: String| x@,
                    ) + seq![t]);
                }
                out.push(piece);
                return out;
            },
        }
    }
}

/// Splits the text at the empty separator: an empty piece, each character
/// alone, and an empty piece.
fn split_empty_vec(s: &str) -> (r: Vec<String>)
    ensures
        r@.map_values(|x: String| x@) == split_empty(s@),
{
    let n = s.unicode_len();
    let mut out: Vec<String> = Vec::new();
    out.push(String::new());
    let mut i: usize = 0;
    while i < n
        invariant
            i <= n,
            n == s@.len(),
            out@.map_values(|x: String| x@) =~= seq![Seq::<char>::empty()] + s@.take(
                i as int,
            ).map_values(|c: char| seq![c]),
        decreases n - i,
    {
        let ghost prev = out@;
        let piece = s.substring_char(i, i + 1).to_owned();
        proof {
            assert(piece@ =~= seq![s@[i as int]]);
        }
        out.push(piece);
        proof {
            assert(out@.map_values(|x: String| x@) =~= prev.map_values(|x: String| x@).push(
                piece@,
            ));
            assert(prev.map_values(|x: String| x@).push(piece@) =~= seq![Seq::<char>::empty()]
                + s@.take(i + 1).map_values(|c: char| seq![c]));
        }
        i += 1;
    }
    let ghost prev = out@;
    out.push(String::new());
    proof {
        assert(s@.take(n as int) =~= s@);
        assert(out@.map_values(|x: String| x@) =~= prev.map_values(|x: String| x@).push(
            Seq::<char>::empty(),
        ));
        assert(prev.map_values(|x: String| x@).push(Seq::<char>::empty()) =~= split_empty(s@));
    }
    out
}

/// Trims every piece.
fn trim_all(v: &Vec<String>) -> (r: Vec<String>)
    ensures
        r@.map_values(|x: String| x@) == v@.map_values(|x: String| x@).map_values(
            |p: Seq<char>| trim_spec(p),
        ),
{
    let mut out: Vec<String> = Vec::new();
    let mut i: usize = 0;
    while i < v.len()
        invariant
            i <= v@.len(),
            out@.map_values(|x: String| x@) =~= v@.take(i as int).map_values(
                |x: String| x@,
            ).map_values(|p: Seq<char>| trim_spec(p)),
        decreases v@.len() - i,
    {
        let ghost prev = out@;
        let piece = trim_str(v[i].as_str());
        out.push(piece);
        proof {
            assert(out@.map_values(|x: String| x@) =~= prev.map_values(|x: String| x@).push(
                piece@,
            ));
            assert(prev.map_values(|x: String| x@).push(piece@) =~= v@.take(i + 1).map_values(
                |x: String| x@,
            ).map_values(|p: Seq<char>| trim_spec(p)));
        }
        i += 1;
    }
    proof {
        assert(v@.take(v@.len() as int) =~= v@);
    }
    out
}

/// Splits optional text into trimmed pieces, as the bulk-import path reads
/// an address list: absent or empty text yields nothing; with no separator
/// given the text splits at whitespace runs; with a separator it splits at
/// each of its occurrences and every piece is trimmed of surrounding
/// whitespace.
pub fn parse_from_string(data: Option<&str>, split_string: Option<&str>) -> (r: Option<
    Vec<String>,
>)
    ensures
        data is None ==> r is None,
        data matches Some(s) ==> (if s@.len() == 0 {
            r is None
        } else {
            r matches Some(v) && v@.map_values(|x: String| x@) == (match split_string {
                None => split_ws(s@),
                Some(sep) => split_by_full(s@, sep@).map_values(|p: Seq<char>| trim_spec(p)),
            })
        }),
{
    match data {
        None => None,
        Some(s) => {
            if s.is_empty() {
                return None;
            }
            match split_string {
                None => Some(split_whitespace_vec(s)),
                Some(sep) => {
                    let raw = if sep.is_empty() {
                        split_empty_vec(s)
                    } else {
                        split_by_vec(s, sep)
                    };
                    Some(trim_all(&raw))
                },
            }
        },
    }
}

} // verus!

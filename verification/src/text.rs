//! Text helpers: Unicode whitespace, trimming and splitting on a separator.
use vstd::prelude::*;

verus! {

/// The Unicode `White_Space` property (PropList.txt), which is what
/// `char::is_whitespace` and `str::trim` follow.
pub open spec fn is_white_space(c: char) -> bool {
    let u = c as u32;
    ||| 0x09 <= u <= 0x0D
    ||| u == 0x20
    ||| u == 0x85
    ||| u == 0xA0
    ||| u == 0x1680
    ||| 0x2000 <= u <= 0x200A
    ||| u == 0x2028
    ||| u == 0x2029
    ||| u == 0x202F
    ||| u == 0x205F
    ||| u == 0x3000
}

/// `s` with leading and trailing whitespace removed.
pub open spec fn trimmed(s: Seq<char>) -> Seq<char>
    decreases s.len(),
{
    if s.len() > 0 && is_white_space(s[0]) {
        trimmed(s.drop_first())
    } else if s.len() > 0 && is_white_space(s[s.len() - 1]) {
        trimmed(s.drop_last())
    } else {
        s
    }
}

/// Whether `c` is whitespace in the sense of `is_white_space`.
pub fn char_is_white_space(c: char) -> (b: bool)
    ensures
        b == is_white_space(c),
{
    let u = c as u32;
    (0x09 <= u && u <= 0x0D) || u == 0x20 || u == 0x85 || u == 0xA0 || u == 0x1680 || (0x2000
        <= u && u <= 0x200A) || u == 0x2028 || u == 0x2029 || u == 0x202F || u == 0x205F || u
        == 0x3000
}

proof fn lemma_trim_front(s: Seq<char>, i: int, j: int)
    requires
        0 <= i < j <= s.len(),
        is_white_space(s[i]),
    ensures
        trimmed(s.subrange(i, j)) == trimmed(s.subrange(i + 1, j)),
{
    assert(s.subrange(i, j).drop_first() =~= s.subrange(i + 1, j));
}

proof fn lemma_trim_back(s: Seq<char>, i: int, j: int)
    requires
        0 <= i < j - 1,
        j <= s.len(),
        !is_white_space(s[i]),
        is_white_space(s[j - 1]),
    ensures
        trimmed(s.subrange(i, j)) == trimmed(s.subrange(i, j - 1)),
{
    assert(s.subrange(i, j).drop_last() =~= s.subrange(i, j - 1));
}

/// `s` with leading and trailing Unicode whitespace removed, as `str::trim` does.
pub fn trim(s: &str) -> (t: String)
    ensures
        t@ == trimmed(s@),
{
    let n = s.unicode_len();
    let mut i: usize = 0;
    assert(s@.subrange(0, n as int) =~= s@);
    loop
        invariant
            i <= n,
            n == s@.len(),
            trimmed(s@.subrange(i as int, n as int)) == trimmed(s@),
        ensures
            i <= n,
            i < n ==> !is_white_space(s@[i as int]),
            trimmed(s@.subrange(i as int, n as int)) == trimmed(s@),
        decreases n - i,
    {
        if i >= n {
            break;
        }
        let c = s.get_char(i);
        if !char_is_white_space(c) {
            break;
        }
        proof {
            lemma_trim_front(s@, i as int, n as int);
        }
        i += 1;
    }
    let mut j: usize = n;
    if i < n {
        loop
            invariant
                i < j <= n,
                n == s@.len(),
                !is_white_space(s@[i as int]),
                trimmed(s@.subrange(i as int, j as int)) == trimmed(s@),
            ensures
                i < j <= n,
                !is_white_space(s@[j - 1]),
                trimmed(s@.subrange(i as int, j as int)) == trimmed(s@),
            decreases j,
        {
            let c = s.get_char(j - 1);
            if !char_is_white_space(c) {
                break;
            }
            proof {
                lemma_trim_back(s@, i as int, j as int);
            }
            j -= 1;
        }
        let piece = s.substring_char(i, j);
        proof {
            let p = s@.subrange(i as int, j as int);
            assert(p[0] == s@[i as int]);
            assert(p[p.len() - 1] == s@[j - 1]);
        }
        String::from_str(piece)
    } else {
        proof {
            assert(s@.subrange(i as int, n as int) =~= Seq::<char>::empty());
        }
        String::new()
    }
}

/// The pieces of `s` between occurrences of `sep`, as `str::split` gives them:
/// one more piece than there are separators, empty pieces included.
pub open spec fn split_on(s: Seq<char>, sep: char) -> Seq<Seq<char>>
    decreases s.len(),
{
    if s.len() == 0 {
        seq![Seq::<char>::empty()]
    } else {
        let head = split_on(s.drop_last(), sep);
        if s[s.len() - 1] == sep {
            head.push(Seq::<char>::empty())
        } else {
            head.update(head.len() - 1, head[head.len() - 1].push(s[s.len() - 1]))
        }
    }
}

/// Every splitting has at least one piece.
pub proof fn lemma_split_nonempty(s: Seq<char>, sep: char)
    ensures
        split_on(s, sep).len() >= 1,
    decreases s.len(),
{
    if s.len() > 0 {
        lemma_split_nonempty(s.drop_last(), sep);
    }
}

/// The pieces of `s` between occurrences of `sep`, each trimmed of surrounding
/// whitespace (what `s.split(sep).map(|p| p.trim().to_string())` collects).
pub fn split_trimmed(s: &str, sep: char) -> (pieces: Vec<String>)
    ensures
        pieces.deep_view() == split_on(s@, sep).map_values(|p: Seq<char>| trimmed(p)),
{
    let n = s.unicode_len();
    let mut pieces: Vec<String> = Vec::new();
    let mut start: usize = 0;
    let mut i: usize = 0;
    proof {
        assert(s@.subrange(0, 0) =~= Seq::<char>::empty());
    }
    while i < n
        invariant
            start <= i <= n,
            n == s@.len(),
            split_on(s@.subrange(0, i as int), sep).len() == pieces.len() + 1,
            forall|k: int|
                0 <= k < pieces.len() ==> #[trigger] pieces@[k]@ == trimmed(
                    split_on(s@.subrange(0, i as int), sep)[k],
                ),
            split_on(s@.subrange(0, i as int), sep)[pieces.len() as int] == s@.subrange(
                start as int,
                i as int,
            ),
        decreases n - i,
    {
        let c = s.get_char(i);
        let ghost prev = split_on(s@.subrange(0, i as int), sep);
        proof {
            assert(s@.subrange(0, i + 1).drop_last() =~= s@.subrange(0, i as int));
            assert(s@.subrange(0, i + 1)[i as int] == c);
        }
        if c == sep {
            let piece = s.substring_char(start, i);
            let t = trim(piece);
            pieces.push(t);
            start = i + 1;
            proof {
                assert(s@.subrange(start as int, start as int) =~= Seq::<char>::empty());
            }
        } else {
            proof {
                assert(s@.subrange(start as int, i + 1) =~= s@.subrange(start as int, i as int).push(c));
            }
        }
        i += 1;
    }
    let piece = s.substring_char(start, n);
    let t = trim(piece);
    pieces.push(t);
    proof {
        assert(s@.subrange(0, n as int) =~= s@);
        let expected = split_on(s@, sep).map_values(|p: Seq<char>| trimmed(p));
        assert(pieces.deep_view() =~= expected) by {
            assert forall|k: int| 0 <= k < pieces.len() implies #[trigger] pieces.deep_view()[k] == expected[k] by {
                assert(pieces.deep_view()[k] == pieces@[k]@);
            }
        }
    }
    pieces
}

/// Whether `p` is a prefix of `s`.
pub open spec fn has_prefix(s: Seq<char>, p: Seq<char>) -> bool {
    p.len() <= s.len() && s.subrange(0, p.len() as int) == p
}

/// Whether `s` starts with `prefix`, as `str::starts_with` answers.
pub fn starts_with(s: &str, prefix: &str) -> (b: bool)
    ensures
        b == has_prefix(s@, prefix@),
{
    let n = s.unicode_len();
    let m = prefix.unicode_len();
    if m > n {
        return false;
    }
    let mut i: usize = 0;
    while i < m
        invariant
            i <= m <= n,
            n == s@.len(),
            m == prefix@.len(),
            forall|k: int| 0 <= k < i ==> s@[k] == prefix@[k],
        decreases m - i,
    {
        if s.get_char(i) != prefix.get_char(i) {
            proof {
                assert(s@.subrange(0, m as int)[i as int] != prefix@[i as int]);
            }
            return false;
        }
        i += 1;
    }
    proof {
        assert(s@.subrange(0, m as int) =~= prefix@);
    }
    true
}

/// The pieces joined back together with `sep` between them.
pub open spec fn joined(pieces: Seq<Seq<char>>, sep: char) -> Seq<char>
    decreases pieces.len(),
{
    if pieces.len() == 0 {
        Seq::<char>::empty()
    } else if pieces.len() == 1 {
        pieces[0]
    } else {
        joined(pieces.drop_last(), sep).push(sep) + pieces[pieces.len() - 1]
    }
}

/// Splitting loses nothing: the pieces joined with the separator give back
/// the text, and no piece holds the separator.
pub proof fn law_split_join(s: Seq<char>, sep: char)
    ensures
        joined(split_on(s, sep), sep) == s,
        forall|k: int|
            0 <= k < split_on(s, sep).len() ==> !(#[trigger] split_on(s, sep)[k]).contains(sep),
    decreases s.len(),
{
    let pieces = split_on(s, sep);
    if s.len() == 0 {
        assert(pieces[0] =~= Seq::<char>::empty());
    } else {
        let rest = s.drop_last();
        let c = s[s.len() - 1];
        let head = split_on(rest, sep);
        law_split_join(rest, sep);
        lemma_split_nonempty(rest, sep);
        if c == sep {
            assert(pieces.drop_last() =~= head);
            assert(joined(pieces, sep) =~= s);
            assert forall|k: int| 0 <= k < pieces.len() implies !(#[trigger] pieces[k]).contains(sep) by {
                if k < head.len() {
                    assert(pieces[k] == head[k]);
                }
            }
        } else {
            let last = head[head.len() - 1];
            assert(!last.contains(sep));
            if head.len() == 1 {
                assert(joined(pieces, sep) =~= s);
            } else {
                assert(pieces.drop_last() =~= head.drop_last());
                let prefix = joined(head.drop_last(), sep).push(sep);
                assert(joined(head, sep) == prefix + last);
                assert(pieces[pieces.len() - 1] == last.push(c));
                assert(joined(pieces, sep) == prefix + last.push(c));
                assert(prefix + last.push(c) =~= (prefix + last).push(c));
                assert(s =~= rest.push(c));
            }
            assert forall|k: int| 0 <= k < pieces.len() implies !(#[trigger] pieces[k]).contains(sep) by {
                if k < head.len() - 1 {
                    assert(pieces[k] == head[k]);
                } else {
                    assert(pieces[k] == last.push(c));
                    if last.push(c).contains(sep) {
                        let i = choose|i: int| 0 <= i < last.push(c).len() && last.push(c)[i] == sep;
                        assert(last[i] == sep);
                    }
                }
            }
        }
    }
}

/// Where the kept part of `s` starts and ends.
proof fn trim_bounds(s: Seq<char>) -> (r: (int, int))
    ensures
        0 <= r.0 <= r.1 <= s.len(),
        trimmed(s) == s.subrange(r.0, r.1),
        forall|i: int| 0 <= i < r.0 ==> is_white_space(#[trigger] s[i]),
        forall|i: int| r.1 <= i < s.len() ==> is_white_space(#[trigger] s[i]),
        r.0 < r.1 ==> !is_white_space(s[r.0]) && !is_white_space(s[r.1 - 1]),
    decreases s.len(),
{
    if s.len() > 0 && is_white_space(s[0]) {
        let (a, b) = trim_bounds(s.drop_first());
        assert(trimmed(s) == s.subrange(a + 1, b + 1)) by {
            assert(s.drop_first().subrange(a, b) =~= s.subrange(a + 1, b + 1));
        }
        assert forall|i: int| 0 <= i < a + 1 implies is_white_space(#[trigger] s[i]) by {
            if i > 0 {
                assert(s[i] == s.drop_first()[i - 1]);
            }
        }
        assert forall|i: int| b + 1 <= i < s.len() implies is_white_space(#[trigger] s[i]) by {
            assert(s[i] == s.drop_first()[i - 1]);
        }
        (a + 1, b + 1)
    } else if s.len() > 0 && is_white_space(s[s.len() - 1]) {
        let (a, b) = trim_bounds(s.drop_last());
        assert(s.drop_last().subrange(a, b) =~= s.subrange(a, b));
        assert forall|i: int| 0 <= i < a implies is_white_space(#[trigger] s[i]) by {
            assert(s[i] == s.drop_last()[i]);
        }
        assert forall|i: int| b <= i < s.len() implies is_white_space(#[trigger] s[i]) by {
            if i < s.len() - 1 {
                assert(s[i] == s.drop_last()[i]);
            }
        }
        (a, b)
    } else {
        assert(s.subrange(0, s.len() as int) =~= s);
        (0, s.len() as int)
    }
}

/// Trimming removes whitespace from both ends and nothing else: the result
/// is a contiguous part of the text, everything cut away is whitespace, the
/// result neither starts nor ends with whitespace, and trimming it again
/// changes nothing.
pub proof fn law_trim(s: Seq<char>)
    ensures
        exists|a: int, b: int|
            {
                &&& 0 <= a <= b <= s.len()
                &&& trimmed(s) == s.subrange(a, b)
                &&& forall|i: int| 0 <= i < a ==> is_white_space(#[trigger] s[i])
                &&& forall|i: int| b <= i < s.len() ==> is_white_space(#[trigger] s[i])
            },
        trimmed(s).len() > 0 ==> !is_white_space(trimmed(s)[0]) && !is_white_space(
            trimmed(s)[trimmed(s).len() - 1],
        ),
        trimmed(trimmed(s)) == trimmed(s),
{
    let (a, b) = trim_bounds(s);
    let t = trimmed(s);
    if t.len() > 0 {
        assert(t[0] == s[a]);
        assert(t[t.len() - 1] == s[b - 1]);
    }
}

/// How many times `c` occurs in `s`.
pub open spec fn count_char(s: Seq<char>, c: char) -> nat
    decreases s.len(),
{
    if s.len() == 0 {
        0
    } else {
        count_char(s.drop_last(), c) + if s[s.len() - 1] == c {
            1nat
        } else {
            0nat
        }
    }
}

/// Splitting gives exactly one piece more than there are separators.
pub proof fn law_split_count(s: Seq<char>, sep: char)
    ensures
        split_on(s, sep).len() == count_char(s, sep) + 1,
    decreases s.len(),
{
    if s.len() > 0 {
        law_split_count(s.drop_last(), sep);
        lemma_split_nonempty(s.drop_last(), sep);
    }
}

} // verus!

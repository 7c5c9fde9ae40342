//! Text helpers and the tokenized path matcher.
use vstd::prelude::*;

verus! {

/// The separator between path tokens.
pub const SEPARATOR: char = '/';

/// `s` with its last character removed (unchanged when empty).
pub open spec fn without_last(s: Seq<char>) -> Seq<char> {
    if s.len() == 0 {
        s
    } else {
        s.drop_last()
    }
}

/// A token with one trailing separator (`/` or `\`) removed.
pub open spec fn clean_token(t: Seq<char>) -> Seq<char> {
    if t.len() > 0 && (t.last() == '/' || t.last() == '\\') {
        t.drop_last()
    } else {
        t
    }
}

/// The pieces of `s` between occurrences of `sep`, as `str::split` yields them:
/// the empty text gives one empty piece, and `n` separators give `n + 1` pieces.
pub open spec fn split_on(s: Seq<char>, sep: char) -> Seq<Seq<char>>
    decreases s.len(),
{
    if s.len() == 0 {
        seq![Seq::<char>::empty()]
    } else {
        let head = split_on(s.drop_last(), sep);
        if s.last() == sep {
            head.push(Seq::<char>::empty())
        } else {
            head.update(head.len() - 1, head.last().push(s.last()))
        }
    }
}

/// The `/`-separated tokens of a path.
pub open spec fn path_tokens(p: Seq<char>) -> Seq<Seq<char>> {
    split_on(p, SEPARATOR)
}

/// Every position that both token sequences have holds the same token once
/// trailing separators are removed.
pub open spec fn tokens_agree(a: Seq<Seq<char>>, b: Seq<Seq<char>>) -> bool {
    forall|i: int|
        0 <= i < a.len() && i < b.len() ==> #[trigger] clean_token(a[i]) == clean_token(b[i])
}

/// Whether `raw` lies under the configured root `root` (or is it): with equal
/// token counts all tokens agree; otherwise the last token of the longer path
/// (taken as a file name) is dropped and the common positions must agree.
pub open spec fn path_matches(raw: Seq<char>, root: Seq<char>) -> bool {
    let r = path_tokens(raw);
    let c = path_tokens(root);
    if r.len() == c.len() {
        tokens_agree(r, c)
    } else if r.len() > c.len() {
        tokens_agree(r.drop_last(), c)
    } else {
        tokens_agree(r, c.drop_last())
    }
}

/// The tokens of a path with trailing separators removed from each.
pub open spec fn clean_tokens(p: Seq<char>) -> Seq<Seq<char>> {
    path_tokens(p).map_values(|t: Seq<char>| clean_token(t))
}

/// Splitting always yields at least one piece.
pub proof fn lemma_split_nonempty(s: Seq<char>, sep: char)
    ensures
        split_on(s, sep).len() >= 1,
    decreases s.len(),
{
    if s.len() > 0 {
        lemma_split_nonempty(s.drop_last(), sep);
    }
}

/// Path matching is a prefix test on cleaned tokens: `raw` matches `root`
/// exactly when the cleaned tokens of the shorter of the two are a prefix of
/// the cleaned tokens of the other.
pub proof fn lemma_matches_iff_token_prefix(raw: Seq<char>, root: Seq<char>)
    ensures
        path_matches(raw, root) <==> (if clean_tokens(raw).len() <= clean_tokens(root).len() {
            clean_tokens(raw) =~= clean_tokens(root).subrange(0, clean_tokens(raw).len() as int)
        } else {
            clean_tokens(root) =~= clean_tokens(raw).subrange(0, clean_tokens(root).len() as int)
        }),
{
    let r = path_tokens(raw);
    let c = path_tokens(root);
    let cr = clean_tokens(raw);
    let cc = clean_tokens(root);
    lemma_split_nonempty(raw, SEPARATOR);
    lemma_split_nonempty(root, SEPARATOR);
    if path_matches(raw, root) {
        if r.len() <= c.len() {
            assert forall|i: int| 0 <= i < cr.len() implies cr[i] == cc[i] by {
                if r.len() < c.len() {
                    assert(c.drop_last()[i] == c[i]);
                }
            }
        } else {
            assert forall|i: int| 0 <= i < cc.len() implies cc[i] == cr[i] by {
                assert(r.drop_last()[i] == r[i]);
            }
        }
    }
    let prefix = if cr.len() <= cc.len() {
        cr =~= cc.subrange(0, cr.len() as int)
    } else {
        cc =~= cr.subrange(0, cc.len() as int)
    };
    if prefix {
        if r.len() == c.len() {
            assert forall|i: int| 0 <= i < r.len() && i < c.len() implies #[trigger] clean_token(
                r[i],
            ) == clean_token(c[i]) by {
                assert(cr[i] == cc.subrange(0, cr.len() as int)[i]);
            }
        } else if r.len() > c.len() {
            let rd = r.drop_last();
            assert forall|i: int| 0 <= i < rd.len() && i < c.len() implies #[trigger] clean_token(
                rd[i],
            ) == clean_token(c[i]) by {
                assert(cc[i] == cr.subrange(0, cc.len() as int)[i]);
            }
        } else {
            let cd = c.drop_last();
            assert forall|i: int| 0 <= i < r.len() && i < cd.len() implies #[trigger] clean_token(
                r[i],
            ) == clean_token(cd[i]) by {
                assert(cr[i] == cc.subrange(0, cr.len() as int)[i]);
            }
        }
    }
}

/// Whether `needle` occurs in `hay` as a contiguous run of characters.
pub open spec fn has_substring(hay: Seq<char>, needle: Seq<char>) -> bool {
    exists|i: int| 0 <= i && i + needle.len() <= hay.len()
        && #[trigger] hay.subrange(i, i + needle.len()) == needle
}

/// Whether `a` and `b` hold the same characters.
pub fn same_text(a: &str, b: &str) -> (r: bool)
    ensures
        r == (a@ == b@),
{
    let n = a.unicode_len();
    if n != b.unicode_len() {
        return false;
    }
    let mut i: usize = 0;
    while i < n
        invariant
            n == a@.len(),
            n == b@.len(),
            i <= n,
            forall|j: int| 0 <= j < i ==> a@[j] == b@[j],
        decreases n - i,
    {
        if a.get_char(i) != b.get_char(i) {
            return false;
        }
        i = i + 1;
    }
    assert(a@ =~= b@);
    true
}

/// The characters of `s`, in order.
pub fn chars_of(s: &str) -> (r: Vec<char>)
    ensures
        r@ == s@,
{
    let n = s.unicode_len();
    let mut out: Vec<char> = Vec::new();
    let mut i: usize = 0;
    while i < n
        invariant
            n == s@.len(),
            i <= n,
            out@ == s@.subrange(0, i as int),
        decreases n - i,
    {
        out.push(s.get_char(i));
        i = i + 1;
        assert(out@ =~= s@.subrange(0, i as int));
    }
    assert(out@ =~= s@);
    out
}

/// Whether `needle` occurs in `hay` as a contiguous run of characters.
pub fn contains_text(hay: &str, needle: &str) -> (r: bool)
    ensures
        r == has_substring(hay@, needle@),
{
    let h = chars_of(hay);
    let k = chars_of(needle);
    if k.len() > h.len() {
        return false;
    }
    let mut i: usize = 0;
    while i <= h.len() - k.len()
        invariant
            h@ == hay@,
            k@ == needle@,
            k.len() <= h.len(),
            i <= h.len() - k.len() + 1,
            forall|p: int| 0 <= p < i ==> #[trigger] h@.subrange(p, p + k@.len()) != k@,
        decreases h.len() - i,
    {
        let mut j: usize = 0;
        while j < k.len() && h[i + j] == k[j]
            invariant
                i + k.len() <= h.len(),
                j <= k.len(),
                forall|q: int| 0 <= q < j ==> h@[i + q] == k@[q],
            decreases k.len() - j,
        {
            j = j + 1;
        }
        if j == k.len() {
            assert(h@.subrange(i as int, i + k@.len()) =~= k@);
            return true;
        }
        assert(h@.subrange(i as int, i + k@.len())[j as int] != k@[j as int]);
        i = i + 1;
    }
    assert forall|p: int| 0 <= p && p + needle@.len() <= hay@.len() implies #[trigger] hay@.subrange(
        p,
        p + needle@.len(),
    ) != needle@ by {
        assert(p < i);
    }
    false
}

/// Returns `string` without its last character.
pub fn pop(string: &str) -> (r: &str)
    ensures
        r@ == without_last(string@),
{
    let n = string.unicode_len();
    if n == 0 {
        string
    } else {
        let r = string.substring_char(0, n - 1);
        assert(r@ =~= string@.drop_last());
        r
    }
}

/// Returns `path` without one trailing `/` or `\`.
pub fn clean_path(path: &str) -> (r: String)
    ensures
        r@ == clean_token(path@),
{
    let n = path.unicode_len();
    if n > 0 {
        let c = path.get_char(n - 1);
        if c == '/' || c == '\\' {
            return pop(path).to_owned();
        }
    }
    path.to_owned()
}

/// Splits `s` at every `sep`.
pub fn split_text(s: &str, sep: char) -> (r: Vec<&str>)
    ensures
        r@.map_values(|t: &str| t@) == split_on(s@, sep),
{
    let n = s.unicode_len();
    let mut pieces: Vec<&str> = Vec::new();
    let mut start: usize = 0;
    let mut i: usize = 0;
    assert(s@.subrange(0, 0) =~= Seq::<char>::empty());
    assert(pieces@.map_values(|t: &str| t@).push(s@.subrange(0, 0)) =~= seq![Seq::<char>::empty()]);
    while i < n
        invariant
            n == s@.len(),
            start <= i <= n,
            pieces@.map_values(|t: &str| t@).push(s@.subrange(start as int, i as int))
                == split_on(s@.subrange(0, i as int), sep),
        decreases n - i,
    {
        let c = s.get_char(i);
        let ghost prev = s@.subrange(0, i as int);
        let ghost next = s@.subrange(0, i as int + 1);
        assert(next.drop_last() =~= prev);
        assert(next.last() == c);
        if c == sep {
            let piece = s.substring_char(start, i);
            pieces.push(piece);
            assert(s@.subrange(i as int + 1, i as int + 1) =~= Seq::<char>::empty());
            assert(pieces@.map_values(|t: &str| t@) =~= split_on(prev, sep));
            start = i + 1;
        } else {
            assert(s@.subrange(start as int, i as int + 1) =~= s@.subrange(
                start as int,
                i as int,
            ).push(c));
        }
        i = i + 1;
        assert(pieces@.map_values(|t: &str| t@).push(s@.subrange(start as int, i as int))
            =~= split_on(next, sep));
    }
    let last = s.substring_char(start, n);
    pieces.push(last);
    assert(s@.subrange(0, n as int) =~= s@);
    assert(pieces@.map_values(|t: &str| t@) =~= split_on(s@, sep));
    pieces
}

/// Whether the tokens at every position that both sequences have agree once
/// trailing separators are removed.
fn all_tokens_agree(a: &Vec<&str>, b: &Vec<&str>) -> (r: bool)
    ensures
        r == tokens_agree(a@.map_values(|t: &str| t@), b@.map_values(|t: &str| t@)),
{
    let ghost av = a@.map_values(|t: &str| t@);
    let ghost bv = b@.map_values(|t: &str| t@);
    let mut i: usize = 0;
    while i < a.len() && i < b.len()
        invariant
            av == a@.map_values(|t: &str| t@),
            bv == b@.map_values(|t: &str| t@),
            i <= a.len(),
            i <= b.len(),
            forall|j: int| 0 <= j < i ==> #[trigger] clean_token(av[j]) == clean_token(bv[j]),
        decreases a.len() - i,
    {
        let x = clean_path(a[i]);
        let y = clean_path(b[i]);
        if x != y {
            assert(clean_token(av[i as int]) != clean_token(bv[i as int]));
            return false;
        }
        i = i + 1;
    }
    true
}

/// Whether `raw_path` lies under the configured root `compare_path`.
pub fn match_path(raw_path: &str, compare_path: &str) -> (r: bool)
    ensures
        r == path_matches(raw_path@, compare_path@),
{
    let mut raw_tokens = split_text(raw_path, SEPARATOR);
    let mut compare_tokens = split_text(compare_path, SEPARATOR);
    proof {
        lemma_split_nonempty(raw_path@, SEPARATOR);
        lemma_split_nonempty(compare_path@, SEPARATOR);
    }
    if raw_tokens.len() > compare_tokens.len() {
        let ghost before = raw_tokens@;
        raw_tokens.pop();
        assert(raw_tokens@.map_values(|t: &str| t@) =~= before.map_values(|t: &str| t@).drop_last());
    } else if raw_tokens.len() < compare_tokens.len() {
        let ghost before = compare_tokens@;
        compare_tokens.pop();
        assert(compare_tokens@.map_values(|t: &str| t@) =~= before.map_values(|t: &str| t@).drop_last());
    }
    all_tokens_agree(&raw_tokens, &compare_tokens)
}

} // verus!

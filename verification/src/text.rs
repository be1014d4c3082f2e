//! Whitespace, trimming and words over character sequences.

use vstd::prelude::*;
use vstd::string::StrSliceExecFns;

verus! {

/// The Unicode `White_Space` property, which `char::is_whitespace` follows.
pub open spec fn is_ws(c: char) -> bool {
    let u = c as u32;
    ||| 0x09 <= u <= 0x0D
    ||| u == 0x20
    ||| u == 0x85
    ||| u == 0xA0
    ||| u == 0x1680
    ||| 0x2000 <= u <= 0x200A
    ||| u == 0x2028
    ||| u == 0x2029
    ||| u == 0x202F
    ||| u == 0x205F
    ||| u == 0x3000
}

/// Whether `c` is Unicode whitespace.
pub fn is_whitespace(c: char) -> (r: bool)
    ensures
        r == is_ws(c),
{
    let u = c as u32;
    (0x09 <= u && u <= 0x0D) || u == 0x20 || u == 0x85 || u == 0xA0 || u == 0x1680 || (0x2000
        <= u && u <= 0x200A) || u == 0x2028 || u == 0x2029 || u == 0x202F || u == 0x205F || u
        == 0x3000
}

/// The characters of `s` in order.
pub fn chars_of(s: &str) -> (v: Vec<char>)
    ensures
        v@ == s@,
{
    let mut v: Vec<char> = Vec::new();
    for c in it: s.chars()
        invariant
            v@ == it.seq().take(it.index()),
    {
        v.push(c);
    }
    v
}

/// `s` without its leading whitespace.
pub open spec fn trim_start_spec(s: Seq<char>) -> Seq<char>
    decreases s.len(),
{
    if s.len() > 0 && is_ws(s[0]) {
        trim_start_spec(s.drop_first())
    } else {
        s
    }
}

/// `s` without its trailing whitespace.
pub open spec fn trim_end_spec(s: Seq<char>) -> Seq<char>
    decreases s.len(),
{
    if s.len() > 0 && is_ws(s.last()) {
        trim_end_spec(s.drop_last())
    } else {
        s
    }
}

/// `s` without leading and trailing whitespace, as `str::trim` gives it.
pub open spec fn trimmed(s: Seq<char>) -> Seq<char> {
    trim_end_spec(trim_start_spec(s))
}

/// `s` with leading and trailing whitespace removed.
pub fn trim(s: &str) -> (r: String)
    ensures
        r@ == trimmed(s@),
{
    let v = chars_of(s);
    let n = v.len();
    let mut i: usize = 0;
    assert(s@.subrange(0, n as int) =~= s@);
    while i < n && is_whitespace(v[i])
        invariant
            i <= n,
            n == v@.len(),
            v@ == s@,
            trim_start_spec(s@) == trim_start_spec(s@.subrange(i as int, n as int)),
        decreases n - i,
    {
        assert(s@.subrange(i as int, n as int).drop_first() =~= s@.subrange(i + 1, n as int));
        i = i + 1;
    }
    let mut j: usize = n;
    while j > i && is_whitespace(v[j - 1])
        invariant
            i <= j <= n,
            n == v@.len(),
            v@ == s@,
            trim_start_spec(s@) == s@.subrange(i as int, n as int),
            trimmed(s@) == trim_end_spec(s@.subrange(i as int, j as int)),
        decreases j - i,
    {
        assert(s@.subrange(i as int, j as int).drop_last() =~= s@.subrange(i as int, j - 1));
        j = j - 1;
    }
    s.substring_char(i, j).to_owned()
}

/// The whitespace-separated words of `s`, in order, as `str::split_whitespace` yields them.
pub open spec fn words(s: Seq<char>) -> Seq<Seq<char>>
    decreases s.len(),
{
    if s.len() == 0 {
        seq![]
    } else {
        let w = words(s.drop_last());
        let c = s.last();
        if is_ws(c) {
            w
        } else if s.len() >= 2 && !is_ws(s[s.len() - 2]) {
            w.update(w.len() - 1, w.last().push(c))
        } else {
            w.push(seq![c])
        }
    }
}

/// Word `n` (counting from 0) of `s`, if `s` has that many words.
pub open spec fn nth_word_spec(s: Seq<char>, n: nat) -> Option<Seq<char>> {
    if n < words(s).len() {
        Some(words(s)[n as int])
    } else {
        None
    }
}

/// A sequence that ends in a non-whitespace character has at least one word.
proof fn lemma_words_nonempty(s: Seq<char>)
    requires
        s.len() > 0,
        !is_ws(s.last()),
    ensures
        words(s).len() > 0,
    decreases s.len(),
{
    if s.len() >= 2 && !is_ws(s[s.len() - 2]) {
        let t = s.drop_last();
        assert(t.last() == s[s.len() - 2]);
        lemma_words_nonempty(t);
    }
}

/// Word `n` (counting from 0) of `s`, if `s` has that many words.
pub fn nth_word(s: &str, n: usize) -> (r: Option<String>)
    ensures
        r matches Some(w) ==> nth_word_spec(s@, n as nat) == Some(w@),
        r is None ==> nth_word_spec(s@, n as nat) is None,
{
    let v = chars_of(s);
    let len = v.len();
    let mut count: usize = 0;
    let mut in_word = false;
    let mut start: usize = 0;
    let mut end: usize = 0;
    assert(v@.take(0) =~= Seq::<char>::empty());
    for i in 0..len
        invariant
            len == v@.len(),
            v@ == s@,
            count <= i,
            count == words(v@.take(i as int)).len(),
            in_word == (i > 0 && !is_ws(v@[i - 1])),
            count > n ==> start <= end <= i && words(v@.take(i as int))[n as int] == v@.subrange(
                start as int,
                end as int,
            ),
            count == n + 1 && in_word ==> end == i,
    {
        let ghost pre = v@.take(i as int);
        let ghost post = v@.take(i + 1);
        assert(post.drop_last() =~= pre);
        assert(post.last() == v@[i as int]);
        if i > 0 {
            assert(post[post.len() - 2] == v@[i - 1]);
            if in_word {
                assert(pre.last() == v@[i - 1]);
                proof {
                    lemma_words_nonempty(pre);
                }
            }
        }
        let c = v[i];
        if is_whitespace(c) {
            in_word = false;
        } else if !in_word {
            count = count + 1;
            in_word = true;
            if count - 1 == n {
                start = i;
                end = i + 1;
                assert(v@.subrange(start as int, end as int) =~= seq![c]);
            }
        } else if count - 1 == n {
            assert(v@.subrange(start as int, i + 1) =~= v@.subrange(start as int, end as int).push(c));
            end = i + 1;
        }
    }
    assert(v@.take(len as int) =~= v@);
    if count > n {
        Some(s.substring_char(start, end).to_owned())
    } else {
        None
    }
}

/// Every word is nonempty and holds no whitespace.
pub proof fn lemma_words_are_nonblank(s: Seq<char>)
    ensures
        forall|k: int|
            0 <= k < words(s).len() ==> #[trigger] words(s)[k].len() > 0 && forall|j: int|
                0 <= j < words(s)[k].len() ==> !is_ws(words(s)[k][j]),
    decreases s.len(),
{
    if s.len() > 0 {
        let t = s.drop_last();
        lemma_words_are_nonblank(t);
        if !is_ws(s.last()) && s.len() >= 2 && !is_ws(s[s.len() - 2]) {
            assert(t.last() == s[s.len() - 2]);
            lemma_words_nonempty(t);
        }
    }
}

proof fn lemma_trim_start_shape(s: Seq<char>)
    ensures
        trim_start_spec(s).len() == 0 || !is_ws(trim_start_spec(s)[0]),
    decreases s.len(),
{
    if s.len() > 0 && is_ws(s[0]) {
        lemma_trim_start_shape(s.drop_first());
    }
}

proof fn lemma_trim_end_shape(s: Seq<char>)
    ensures
        trim_end_spec(s).len() <= s.len(),
        trim_end_spec(s) == s.subrange(0, trim_end_spec(s).len() as int),
        trim_end_spec(s).len() == 0 || !is_ws(trim_end_spec(s).last()),
    decreases s.len(),
{
    if s.len() > 0 && is_ws(s.last()) {
        lemma_trim_end_shape(s.drop_last());
        assert(s.drop_last().subrange(0, trim_end_spec(s).len() as int) =~= s.subrange(
            0,
            trim_end_spec(s).len() as int,
        ));
    } else {
        assert(s.subrange(0, s.len() as int) =~= s);
    }
}

/// A trimmed sequence neither starts nor ends with whitespace.
pub proof fn lemma_trimmed_edges(s: Seq<char>)
    ensures
        trimmed(s).len() > 0 ==> !is_ws(trimmed(s)[0]) && !is_ws(trimmed(s).last()),
{
    lemma_trim_start_shape(s);
    lemma_trim_end_shape(trim_start_spec(s));
    let t = trim_start_spec(s);
    let u = trimmed(s);
    if u.len() > 0 {
        assert(u[0] == t[0]);
    }
}

/// Trimming twice is trimming once.
pub proof fn lemma_trim_idempotent(s: Seq<char>)
    ensures
        trimmed(trimmed(s)) == trimmed(s),
{
    lemma_trimmed_edges(s);
    let u = trimmed(s);
    assert(trim_start_spec(u) == u);
    assert(trim_end_spec(u) == u);
}

/// A nonempty sequence without whitespace is one word.
pub proof fn lemma_words_single(w: Seq<char>)
    requires
        w.len() > 0,
        forall|j: int| 0 <= j < w.len() ==> !is_ws(w[j]),
    ensures
        words(w) == seq![w],
    decreases w.len(),
{
    if w.len() >= 2 {
        let t = w.drop_last();
        lemma_words_single(t);
        assert(t.push(w.last()) =~= w);
        assert(!is_ws(w[w.len() - 2]));
        assert(seq![t].update(0, t.push(w.last())) =~= seq![w]);
        assert(words(w) == words(t).update(words(t).len() - 1, words(t).last().push(w.last())));
    } else {
        assert(w.drop_last() =~= Seq::<char>::empty());
        assert(words(w.drop_last()) =~= Seq::<Seq<char>>::empty());
        assert(seq![w.last()] =~= w);
        assert(Seq::<Seq<char>>::empty().push(seq![w.last()]) =~= seq![w]);
    }
}

/// Splitting at a whitespace character splits the words: the words of
/// `a`, a whitespace character and `b` are the words of `a` followed by those of `b`.
pub proof fn lemma_words_split(a: Seq<char>, c: char, b: Seq<char>)
    requires
        is_ws(c),
    ensures
        words(a + seq![c] + b) == words(a) + words(b),
    decreases b.len(),
{
    let s = a + seq![c] + b;
    if b.len() == 0 {
        assert(s =~= a.push(c));
        assert(s.drop_last() =~= a);
        assert(words(b) =~= Seq::<Seq<char>>::empty());
        assert(words(a) + words(b) =~= words(a));
    } else {
        let bl = b.drop_last();
        lemma_words_split(a, c, bl);
        assert(s.drop_last() =~= a + seq![c] + bl);
        assert(s.last() == b.last());
        let wa = words(a);
        let wb = words(bl);
        let x = b.last();
        if is_ws(x) {
        } else {
            assert(s[s.len() - 2] == if b.len() >= 2 {
                b[b.len() - 2]
            } else {
                c
            });
            if b.len() >= 2 && !is_ws(b[b.len() - 2]) {
                assert(bl.last() == b[b.len() - 2]);
                lemma_words_nonempty(bl);
                assert((wa + wb).update((wa + wb).len() - 1, (wa + wb).last().push(x)) =~= wa
                    + wb.update(wb.len() - 1, wb.last().push(x)));
            } else {
                assert((wa + wb).push(seq![x]) =~= wa + wb.push(seq![x]));
            }
        }
    }
}

}

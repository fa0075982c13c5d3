use vstd::prelude::*;

verus! {

/// The characters of a string slice, in order.
pub fn chars_of(s: &str) -> (r: Vec<char>)
    ensures
        r@ == s@,
{
    let mut v: Vec<char> = Vec::new();
    for c in it: s.chars()
        invariant
            it.seq() == s@,
            v@ == it.seq().take(it.index() as int),
    {
        v.push(c);
    }
    assert(v@ =~= s@);
    v
}

/// Relies on String::push: appends one character.
#[verifier::external_body]
pub(crate) fn push_char(s: &mut String, c: char)
    ensures
        final(s)@ == old(s)@.push(c),
{
    s.push(c)
}

/// The string made of the given characters.
pub fn string_of(v: &Vec<char>) -> (r: String)
    ensures
        r@ == v@,
{
    let mut s = String::new();
    let mut i: usize = 0;
    while i < v.len()
        invariant
            i <= v.len(),
            s@ == v@.take(i as int),
        decreases v.len() - i,
    {
        push_char(&mut s, v[i]);
        i = i + 1;
        assert(s@ =~= v@.take(i as int));
    }
    assert(s@ =~= v@);
    s
}


/// Whether a character is white space: the characters with the Unicode
/// `White_Space` property, which `char::is_whitespace` tests.
pub open spec fn white_space(c: char) -> bool {
    ('\u{9}' <= c <= '\u{d}') || c == ' ' || c == '\u{85}' || c == '\u{a0}' || c == '\u{1680}'
        || ('\u{2000}' <= c <= '\u{200a}') || c == '\u{2028}' || c == '\u{2029}' || c
        == '\u{202f}' || c == '\u{205f}' || c == '\u{3000}'
}

/// Whether a character is white space.
pub fn is_white(c: char) -> (r: bool)
    ensures
        r == white_space(c),
{
    ('\u{9}' <= c && c <= '\u{d}') || c == ' ' || c == '\u{85}' || c == '\u{a0}' || c
        == '\u{1680}' || ('\u{2000}' <= c && c <= '\u{200a}') || c == '\u{2028}' || c
        == '\u{2029}' || c == '\u{202f}' || c == '\u{205f}' || c == '\u{3000}'
}

/// The text without its leading white space.
pub open spec fn trim_left(s: Seq<char>) -> Seq<char>
    decreases s.len(),
{
    if s.len() > 0 && white_space(s[0]) {
        trim_left(s.drop_first())
    } else {
        s
    }
}

/// The text without its trailing white space.
pub open spec fn trim_right(s: Seq<char>) -> Seq<char>
    decreases s.len(),
{
    if s.len() > 0 && white_space(s.last()) {
        trim_right(s.drop_last())
    } else {
        s
    }
}

/// The text without white space at either end.
pub open spec fn trimmed(s: Seq<char>) -> Seq<char> {
    trim_right(trim_left(s))
}

/// Removes the white space at both ends of a text.
pub fn trim(s: &Vec<char>) -> (r: Vec<char>)
    ensures
        r@ == trimmed(s@),
{
    let n = s.len();
    let mut a: usize = 0;
    assert(s@.skip(0) =~= s@);
    while a < n && is_white(s[a])
        invariant
            a <= n == s@.len(),
            trim_left(s@) == trim_left(s@.skip(a as int)),
        decreases n - a,
    {
        assert(s@.skip(a as int).drop_first() =~= s@.skip(a + 1));
        a = a + 1;
    }
    let ghost left = s@.skip(a as int);
    assert(trim_left(left) == left);
    let mut b: usize = n;
    while b > a && is_white(s[b - 1])
        invariant
            a <= b <= n == s@.len(),
            left == s@.skip(a as int),
            trim_right(left) == trim_right(s@.subrange(a as int, b as int)),
        decreases b,
    {
        assert(s@.subrange(a as int, b as int).drop_last() =~= s@.subrange(a as int, b - 1));
        b = b - 1;
    }
    let mut r: Vec<char> = Vec::new();
    let mut i: usize = a;
    while i < b
        invariant
            a <= i <= b <= n == s@.len(),
            r@ == s@.subrange(a as int, i as int),
        decreases b - i,
    {
        r.push(s[i]);
        i = i + 1;
        assert(r@ =~= s@.subrange(a as int, i as int));
    }
    r
}

/// Whether `p` stands in `s` at position `i`.
pub open spec fn occurs_at(s: Seq<char>, p: Seq<char>, i: int) -> bool {
    0 <= i && i + p.len() <= s.len() && s.subrange(i, i + p.len()) == p
}

/// The first position at or after `i` where `p` stands in `s`, if any.
pub open spec fn find_from(s: Seq<char>, p: Seq<char>, i: int) -> Option<int>
    decreases s.len() + 1 - i,
{
    if i < 0 || i + p.len() > s.len() {
        None
    } else if occurs_at(s, p, i) {
        Some(i)
    } else {
        find_from(s, p, i + 1)
    }
}

/// Whether `p` stands in `s` at position `i`.
fn matches_at(s: &Vec<char>, p: &Vec<char>, i: usize) -> (r: bool)
    requires
        i <= s@.len(),
    ensures
        r == occurs_at(s@, p@, i as int),
{
    if p.len() > s.len() - i {
        return false;
    }
    let mut k: usize = 0;
    while k < p.len()
        invariant
            i <= s@.len(),
            i + p@.len() <= s@.len(),
            k <= p@.len(),
            forall|j: int| 0 <= j < k ==> s@[i + j] == p@[j],
        decreases p.len() - k,
    {
        assert(i + k < s.len());
        if s[i + k] != p[k] {
            assert(s@.subrange(i as int, i + p@.len())[k as int] != p@[k as int]);
            return false;
        }
        k = k + 1;
    }
    assert(s@.subrange(i as int, i + p@.len()) =~= p@);
    true
}

/// The first position at or after `from` where `p` stands in `s`.
pub fn find(s: &Vec<char>, p: &Vec<char>, from: usize) -> (r: Option<usize>)
    requires
        from <= s@.len(),
    ensures
        r is Some <==> find_from(s@, p@, from as int) is Some,
        r matches Some(i) ==> find_from(s@, p@, from as int) == Some(i as int),
        r matches Some(i) ==> occurs_at(s@, p@, i as int) && from <= i,
{
    if p.len() > s.len() {
        return None;
    }
    let last = s.len() - p.len();
    if from > last {
        return None;
    }
    let mut i: usize = from;
    loop
        invariant
            from <= i <= last,
            last + p@.len() == s@.len(),
            find_from(s@, p@, from as int) == find_from(s@, p@, i as int),
        decreases last - i,
    {
        if matches_at(s, p, i) {
            return Some(i);
        }
        if i == last {
            assert(find_from(s@, p@, i + 1) is None);
            return None;
        }
        i = i + 1;
    }
}

/// Whether `p` stands in `s` anywhere.
pub fn contains(s: &Vec<char>, p: &Vec<char>) -> (r: bool)
    ensures
        r == find_from(s@, p@, 0) is Some,
{
    find(s, p, 0).is_some()
}


/// The pieces of `s` between the occurrences of `sep`, taken from the left
/// without overlap; there is always at least one piece.
pub open spec fn split_on(s: Seq<char>, sep: Seq<char>) -> Seq<Seq<char>>
    decreases s.len(),
{
    if sep.len() == 0 || s.len() < sep.len() {
        seq![s]
    } else if s.take(sep.len() as int) == sep {
        seq![Seq::<char>::empty()] + split_on(s.skip(sep.len() as int), sep)
    } else {
        let rest = split_on(s.drop_first(), sep);
        rest.update(0, seq![s[0]] + rest[0])
    }
}

proof fn lemma_split_nonempty(s: Seq<char>, sep: Seq<char>)
    ensures
        split_on(s, sep).len() >= 1,
    decreases s.len(),
{
    if sep.len() == 0 || s.len() < sep.len() {
    } else if s.take(sep.len() as int) == sep {
        lemma_split_nonempty(s.skip(sep.len() as int), sep);
    } else {
        lemma_split_nonempty(s.drop_first(), sep);
    }
}

/// Splits a text on every occurrence of a separator, as `str::split` does.
pub fn split(s: &Vec<char>, sep: &Vec<char>) -> (r: Vec<Vec<char>>)
    requires
        sep@.len() > 0,
    ensures
        r@.len() == split_on(s@, sep@).len(),
        forall|k: int| 0 <= k < r@.len() ==> #[trigger] r@[k]@ == split_on(s@, sep@)[k],
{
    let n = s.len();
    let m = sep.len();
    let mut parts: Vec<Vec<char>> = Vec::new();
    let ghost done: Seq<Seq<char>> = Seq::empty();
    let mut cur: Vec<char> = Vec::new();
    let mut i: usize = 0;
    assert(s@.skip(0) =~= s@);
    proof {
        lemma_split_nonempty(s@, sep@);
    }
    assert(split_on(s@, sep@) =~= done + seq![cur@ + split_on(s@.skip(i as int), sep@)[0]]
        + split_on(s@.skip(i as int), sep@).drop_first());
    while m <= n - i
        invariant
            n == s@.len(),
            m == sep@.len(),
            m > 0,
            i <= n,
            parts@.len() == done.len(),
            forall|k: int| 0 <= k < parts@.len() ==> #[trigger] parts@[k]@ == done[k],
            split_on(s@, sep@) == done + seq![cur@ + split_on(s@.skip(i as int), sep@)[0]]
                + split_on(s@.skip(i as int), sep@).drop_first(),
        decreases n - i,
    {
        let ghost rest = s@.skip(i as int);
        proof {
            lemma_split_nonempty(rest, sep@);
        }
        if matches_at(s, sep, i) {
            assert(rest.take(m as int) =~= s@.subrange(i as int, i + m));
            assert(rest.skip(m as int) =~= s@.skip(i + m));
            proof {
                lemma_split_nonempty(s@.skip(i + m), sep@);
                done = done.push(cur@);
            }
            let piece = cur;
            parts.push(piece);
            cur = Vec::new();
            i = i + m;
            assert(Seq::<char>::empty() + split_on(s@.skip(i as int), sep@)[0]
                =~= split_on(s@.skip(i as int), sep@)[0]);
            assert(split_on(s@, sep@) =~= done + seq![cur@ + split_on(s@.skip(i as int), sep@)[0]]
                + split_on(s@.skip(i as int), sep@).drop_first());
        } else {
            assert(rest.take(m as int) != sep@) by {
                assert(rest.take(m as int) =~= s@.subrange(i as int, i + m));
            }
            assert(rest.drop_first() =~= s@.skip(i + 1));
            proof {
                lemma_split_nonempty(s@.skip(i + 1), sep@);
            }
            let ghost old_cur = cur@;
            cur.push(s[i]);
            i = i + 1;
            assert(cur@ + split_on(s@.skip(i as int), sep@)[0]
                =~= old_cur + (seq![rest[0]] + split_on(s@.skip(i as int), sep@)[0]));
            assert(split_on(s@, sep@) =~= done + seq![cur@ + split_on(s@.skip(i as int), sep@)[0]]
                + split_on(s@.skip(i as int), sep@).drop_first());
        }
    }
    let ghost rest = s@.skip(i as int);
    assert(split_on(rest, sep@) == seq![rest]);
    while i < n
        invariant
            n == s@.len(),
            i <= n,
            cur@ + s@.skip(i as int) == cur@ + s@.skip(i as int),
            split_on(s@, sep@) == done + seq![cur@ + s@.skip(i as int)],
        decreases n - i,
    {
        let ghost old_cur = cur@;
        cur.push(s[i]);
        i = i + 1;
        assert(cur@ + s@.skip(i as int) =~= old_cur + s@.skip(i - 1));
    }
    assert(cur@ + s@.skip(i as int) =~= cur@);
    parts.push(cur);
    assert(split_on(s@, sep@) =~= done.push(parts@[parts@.len() - 1]@));
    parts
}

/// What `str::to_lowercase` makes of a text.
pub uninterp spec fn lower_of(s: Seq<char>) -> Seq<char>;

/// Relies on str::to_lowercase: the lowercase form of a text, a function of its
/// characters alone; an empty text stays empty.
#[verifier::external_body]
pub(crate) fn lowercase(s: &str) -> (r: String)
    ensures
        r@ == lower_of(s@),
        s@.len() == 0 ==> r@.len() == 0,
{
    s.to_lowercase()
}

/// Whether `t` matches the pattern `p` of a `LIKE` comparison: `%` stands for
/// any run of characters, `_` for any one character, and `\` makes the next
/// character of the pattern stand for itself.
pub open spec fn like(t: Seq<char>, p: Seq<char>) -> bool
    decreases p.len() + t.len(),
{
    if p.len() == 0 {
        t.len() == 0
    } else if p[0] == '%' {
        like(t, p.drop_first()) || (t.len() > 0 && like(t.drop_first(), p))
    } else if p[0] == '\\' && p.len() >= 2 {
        t.len() > 0 && t[0] == p[1] && like(t.drop_first(), p.skip(2))
    } else {
        t.len() > 0 && (p[0] == '_' || p[0] == t[0]) && like(t.drop_first(), p.drop_first())
    }
}

fn like_from(t: &Vec<char>, i: usize, p: &Vec<char>, j: usize) -> (r: bool)
    requires
        i <= t@.len(),
        j <= p@.len(),
    ensures
        r == like(t@.skip(i as int), p@.skip(j as int)),
    decreases p@.len() - j + t@.len() - i,
{
    let ghost ts = t@.skip(i as int);
    let ghost ps = p@.skip(j as int);
    if j == p.len() {
        return i == t.len();
    }
    assert(ps.drop_first() =~= p@.skip(j + 1));
    if i < t.len() {
        assert(ts.drop_first() =~= t@.skip(i + 1));
    }
    if p[j] == '%' {
        if like_from(t, i, p, j + 1) {
            return true;
        }
        return i < t.len() && like_from(t, i + 1, p, j);
    }
    if p[j] == '\\' && j + 1 < p.len() {
        assert(ps.skip(2) =~= p@.skip(j + 2));
        return i < t.len() && t[i] == p[j + 1] && like_from(t, i + 1, p, j + 2);
    }
    i < t.len() && (p[j] == '_' || p[j] == t[i]) && like_from(t, i + 1, p, j + 1)
}

/// Whether a text matches a `LIKE` pattern, case taken as it stands.
pub fn like_text(t: &Vec<char>, p: &Vec<char>) -> (r: bool)
    ensures
        r == like(t@, p@),
{
    assert(t@.skip(0) =~= t@);
    assert(p@.skip(0) =~= p@);
    like_from(t, 0, p, 0)
}

/// Whether a text matches a pattern regardless of case, as `ILIKE` compares:
/// both sides are lowercased first.
pub fn ilike(t: &str, p: &str) -> (r: bool)
    ensures
        r == like(lower_of(t@), lower_of(p@)),
{
    let tl = lowercase(t);
    let pl = lowercase(p);
    let tc = chars_of(tl.as_str());
    let pc = chars_of(pl.as_str());
    like_text(&tc, &pc)
}


/// Whether two lists of characters are equal.
pub fn same_chars(v: &Vec<char>, w: &Vec<char>) -> (r: bool)
    ensures
        r == (v@ == w@),
{
    if v.len() != w.len() {
        return false;
    }
    let mut i: usize = 0;
    while i < v.len()
        invariant
            v@.len() == w@.len(),
            i <= v@.len(),
            forall|j: int| 0 <= j < i ==> v@[j] == w@[j],
        decreases v.len() - i,
    {
        if v[i] != w[i] {
            return false;
        }
        i = i + 1;
    }
    assert(v@ =~= w@);
    true
}

/// Whether two texts are equal, character for character.
pub fn same_text(a: &str, b: &str) -> (r: bool)
    ensures
        r == (a@ == b@),
{
    same_chars(&chars_of(a), &chars_of(b))
}

/// What `Regex::replace_all` makes of `text` when every match of `pattern` is
/// replaced with `replacement`; nothing when the pattern does not compile.
pub uninterp spec fn regex_replaced(pattern: Seq<char>, text: Seq<char>, replacement: Seq<char>)
    -> Option<Seq<char>>;

/// Relies on regex::Regex::new and Regex::replace_all: the text with every
/// match of the pattern replaced, or nothing when the pattern is refused.
#[verifier::external_body]
pub(crate) fn regex_replace_all(pattern: &str, text: &str, replacement: &str) -> (r: Option<String>)
    ensures
        r is Some <==> regex_replaced(pattern@, text@, replacement@) is Some,
        r matches Some(x) ==> regex_replaced(pattern@, text@, replacement@) == Some(x@),
{
    match regex::Regex::new(pattern) {
        Ok(re) => Some(re.replace_all(text, replacement).into_owned()),
        Err(_) => None,
    }
}

} // verus!

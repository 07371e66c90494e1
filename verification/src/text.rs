use vstd::prelude::*;
use vstd::string::*;

verus! {

/// The order of two texts, as `str`'s own comparison gives it.
#[derive(Debug, Clone, Copy, PartialEq, Eq, Structural)]
pub enum TextOrder {
    Less,
    Equal,
    Greater,
}

/// Lexicographic order on character sequences, characters compared by
/// their code points. This is the order in which Rust compares two `str`
/// values (UTF-8 byte order agrees with code point order).
pub open spec fn chars_lt(a: Seq<char>, b: Seq<char>) -> bool
    decreases a.len(),
{
    if a.len() == 0 {
        b.len() > 0
    } else if b.len() == 0 {
        false
    } else if a[0] == b[0] {
        chars_lt(a.drop_first(), b.drop_first())
    } else {
        (a[0] as int) < (b[0] as int)
    }
}

/// No text comes before itself.
pub proof fn lemma_chars_lt_irreflexive(a: Seq<char>)
    ensures
        !chars_lt(a, a),
    decreases a.len(),
{
    if a.len() > 0 {
        lemma_chars_lt_irreflexive(a.drop_first());
    }
}

/// Of two texts, at most one comes before the other.
pub proof fn lemma_chars_lt_asymmetric(a: Seq<char>, b: Seq<char>)
    ensures
        chars_lt(a, b) ==> !chars_lt(b, a),
    decreases a.len(),
{
    if a.len() > 0 && b.len() > 0 && a[0] == b[0] {
        lemma_chars_lt_asymmetric(a.drop_first(), b.drop_first());
    }
}

/// The order is transitive.
pub proof fn lemma_chars_lt_transitive(a: Seq<char>, b: Seq<char>, c: Seq<char>)
    requires
        chars_lt(a, b),
        chars_lt(b, c),
    ensures
        chars_lt(a, c),
    decreases a.len(),
{
    if a.len() > 0 && b.len() > 0 && c.len() > 0 {
        if a[0] == b[0] && b[0] == c[0] {
            lemma_chars_lt_transitive(a.drop_first(), b.drop_first(), c.drop_first());
        }
    }
}

/// Two different texts are ordered one way or the other.
pub proof fn lemma_chars_lt_total(a: Seq<char>, b: Seq<char>)
    ensures
        a == b || chars_lt(a, b) || chars_lt(b, a),
    decreases a.len(),
{
    if a.len() == 0 && b.len() == 0 {
        assert(a =~= b);
    } else if a.len() > 0 && b.len() > 0 && a[0] == b[0] {
        lemma_chars_lt_total(a.drop_first(), b.drop_first());
        if a.drop_first() == b.drop_first() {
            assert(a.drop_first().len() == b.drop_first().len());
            assert(a.len() == b.len());
            assert forall|i: int| 0 <= i < a.len() implies a[i] == b[i] by {
                if i > 0 {
                    assert(a[i] == a.drop_first()[i - 1]);
                    assert(b[i] == b.drop_first()[i - 1]);
                }
            }
            assert(a =~= b);
        }
    } else if a.len() > 0 && b.len() > 0 {
        assert((a[0] as int) != (b[0] as int));
    }
}

proof fn lemma_skip_step(s: Seq<char>, i: int)
    requires
        0 <= i < s.len(),
    ensures
        s.skip(i).len() > 0,
        s.skip(i)[0] == s[i],
        s.skip(i).drop_first() =~= s.skip(i + 1),
{
}

/// Compares two texts character by character.
pub fn compare_text(a: &str, b: &str) -> (r: TextOrder)
    ensures
        r == TextOrder::Less <==> chars_lt(a@, b@),
        r == TextOrder::Equal <==> a@ == b@,
        r == TextOrder::Greater <==> chars_lt(b@, a@),
{
    proof {
        lemma_chars_lt_irreflexive(a@);
        lemma_chars_lt_asymmetric(a@, b@);
    }
    let la = a.unicode_len();
    let lb = b.unicode_len();
    let mut i: usize = 0;
    assert(a@.skip(0) =~= a@);
    assert(b@.skip(0) =~= b@);
    while i < la && i < lb
        invariant
            la == a@.len(),
            lb == b@.len(),
            i <= la,
            i <= lb,
            forall|j: int| 0 <= j < i ==> a@[j] == b@[j],
            chars_lt(a@, b@) == chars_lt(a@.skip(i as int), b@.skip(i as int)),
            chars_lt(b@, a@) == chars_lt(b@.skip(i as int), a@.skip(i as int)),
        decreases la - i,
    {
        let ca = a.get_char(i);
        let cb = b.get_char(i);
        proof {
            lemma_skip_step(a@, i as int);
            lemma_skip_step(b@, i as int);
        }
        if ca != cb {
            assert(a@[i as int] != b@[i as int]);
            if (ca as u32) < (cb as u32) {
                return TextOrder::Less;
            } else {
                return TextOrder::Greater;
            }
        }
        i = i + 1;
    }
    if i == la && i == lb {
        assert(a@ =~= b@);
        TextOrder::Equal
    } else if i == la {
        assert(a@.skip(i as int).len() == 0);
        assert(a@ != b@);
        TextOrder::Less
    } else {
        assert(b@.skip(i as int).len() == 0);
        assert(a@ != b@);
        TextOrder::Greater
    }
}


/// `s` ends with `t`.
pub open spec fn ends_with_spec(s: Seq<char>, t: Seq<char>) -> bool {
    s.len() >= t.len() && s.subrange(s.len() - t.len(), s.len() as int) == t
}

/// `t` occurs in `s` as a run of consecutive characters.
pub open spec fn contains_spec(s: Seq<char>, t: Seq<char>) -> bool {
    exists|i: int| 0 <= i && i + t.len() <= s.len() && #[trigger] s.subrange(i, i + t.len()) == t
}

/// Whether `s` ends with `suffix`.
pub fn ends_with(s: &str, suffix: &str) -> (r: bool)
    ensures
        r == ends_with_spec(s@, suffix@),
{
    let ls = s.unicode_len();
    let lt = suffix.unicode_len();
    if ls < lt {
        false
    } else {
        let tail = s.substring_char(ls - lt, ls);
        compare_text(tail, suffix) == TextOrder::Equal
    }
}

/// Whether `needle` occurs in `s`.
pub fn contains_text(s: &str, needle: &str) -> (r: bool)
    ensures
        r == contains_spec(s@, needle@),
{
    let ls = s.unicode_len();
    let lt = needle.unicode_len();
    if ls < lt {
        return false;
    }
    let mut i: usize = 0;
    while i <= ls - lt
        invariant
            ls == s@.len(),
            lt == needle@.len(),
            lt <= ls,
            i <= ls - lt + 1,
            forall|j: int| 0 <= j < i ==> #[trigger] s@.subrange(j, j + lt) != needle@,
        decreases ls - lt + 1 - i,
    {
        let window = s.substring_char(i, i + lt);
        if compare_text(window, needle) == TextOrder::Equal {
            assert(s@.subrange(i as int, i + needle@.len()) == needle@);
            return true;
        }
        i = i + 1;
    }
    assert forall|j: int| 0 <= j && j + needle@.len() <= s@.len() implies #[trigger] s@.subrange(
        j,
        j + needle@.len(),
    ) != needle@ by {
        assert(j < i);
    }
    false
}

/// Whether the character `c` occurs in `s`.
pub fn contains_char(s: &str, c: char) -> (r: bool)
    ensures
        r == s@.contains(c),
{
    let n = s.unicode_len();
    let mut i: usize = 0;
    while i < n
        invariant
            n == s@.len(),
            i <= n,
            forall|j: int| 0 <= j < i ==> s@[j] != c,
        decreases n - i,
    {
        if s.get_char(i) == c {
            assert(s@[i as int] == c);
            return true;
        }
        i = i + 1;
    }
    false
}

/// Whether `s` starts with the character `c`.
pub fn starts_with_char(s: &str, c: char) -> (r: bool)
    ensures
        r == (s@.len() > 0 && s@[0] == c),
{
    if s.unicode_len() == 0 {
        false
    } else {
        s.get_char(0) == c
    }
}

/// The pieces of `s` between occurrences of `sep`, as `str::split` with a
/// character gives them: empty pieces included, and always at least one piece.
pub open spec fn split_spec(s: Seq<char>, sep: char) -> Seq<Seq<char>>
    decreases s.len(),
{
    if s.len() == 0 {
        seq![Seq::empty()]
    } else {
        let rest = split_spec(s.drop_last(), sep);
        if s.last() == sep {
            rest.push(Seq::empty())
        } else {
            rest.update(rest.len() - 1, rest.last().push(s.last()))
        }
    }
}

/// `split_spec` yields at least one piece.
pub proof fn lemma_split_nonempty(s: Seq<char>, sep: char)
    ensures
        split_spec(s, sep).len() >= 1,
    decreases s.len(),
{
    if s.len() > 0 {
        lemma_split_nonempty(s.drop_last(), sep);
    }
}

/// The views of a list of strings.
pub open spec fn strings_view(v: Seq<String>) -> Seq<Seq<char>> {
    v.map_values(|x: String| x@)
}

/// Splits `s` at every occurrence of `sep`.
pub fn split_char(s: &str, sep: char) -> (r: Vec<String>)
    ensures
        strings_view(r@) == split_spec(s@, sep),
{
    let n = s.unicode_len();
    let mut pieces: Vec<String> = Vec::new();
    let mut start: usize = 0;
    let mut i: usize = 0;
    assert(s@.take(0) =~= Seq::<char>::empty());
    assert(strings_view(pieces@).push(s@.subrange(0, 0)) =~= split_spec(s@.take(0), sep));
    while i < n
        invariant
            n == s@.len(),
            start <= i <= n,
            strings_view(pieces@).push(s@.subrange(start as int, i as int)) == split_spec(
                s@.take(i as int),
                sep,
            ),
        decreases n - i,
    {
        let c = s.get_char(i);
        proof {
            assert(s@.take(i + 1).drop_last() =~= s@.take(i as int));
            assert(s@.take(i + 1).last() == c);
            lemma_split_nonempty(s@.take(i as int), sep);
        }
        if c == sep {
            let ghost rest = split_spec(s@.take(i as int), sep);
            let ghost old_view = strings_view(pieces@);
            let piece = String::from_str(s.substring_char(start, i));
            pieces.push(piece);
            start = i + 1;
            proof {
                assert(strings_view(pieces@) =~= old_view.push(piece@));
                assert(rest =~= strings_view(pieces@));
                assert(s@.subrange(start as int, i + 1) =~= Seq::<char>::empty());
                assert(split_spec(s@.take(i + 1), sep) == rest.push(Seq::empty()));
                assert(strings_view(pieces@).push(s@.subrange(start as int, i + 1)) =~= split_spec(
                    s@.take(i + 1),
                    sep,
                ));
            }
        } else {
            proof {
                let rest = split_spec(s@.take(i as int), sep);
                let cur = s@.subrange(start as int, i as int);
                assert(s@.subrange(start as int, i + 1) =~= cur.push(c));
                assert(rest == strings_view(pieces@).push(cur));
                assert(rest.last() == cur);
                assert(split_spec(s@.take(i + 1), sep) == rest.update(rest.len() - 1, cur.push(c)));
                assert(strings_view(pieces@).push(s@.subrange(start as int, i + 1)) =~= rest.update(
                    rest.len() - 1,
                    cur.push(c),
                ));
            }
        }
        i = i + 1;
    }
    let last = String::from_str(s.substring_char(start, n));
    pieces.push(last);
    assert(s@.take(n as int) =~= s@);
    assert(strings_view(pieces@) =~= split_spec(s@, sep));
    pieces
}


/// `s` contains `sep` at least once, so splitting it yields two pieces or more.
pub proof fn lemma_split_at_least_two(s: Seq<char>, sep: char)
    requires
        s.contains(sep),
    ensures
        split_spec(s, sep).len() >= 2,
    decreases s.len(),
{
    lemma_split_nonempty(s.drop_last(), sep);
    if s.last() != sep {
        let k = choose|k: int| 0 <= k < s.len() && s[k] == sep;
        assert(k < s.len() - 1);
        assert(s.drop_last()[k] == sep);
        lemma_split_at_least_two(s.drop_last(), sep);
    }
}

/// The decimal digit character for `d` in `0..10`.
pub open spec fn digit_char(d: int) -> char {
    seq!['0', '1', '2', '3', '4', '5', '6', '7', '8', '9'][d]
}

/// The decimal notation of `n`, without leading zeros.
pub open spec fn decimal_spec(n: nat) -> Seq<char>
    decreases n,
{
    if n < 10 {
        seq![digit_char(n as int)]
    } else {
        decimal_spec(n / 10) + seq![digit_char((n % 10) as int)]
    }
}

fn digit_text(d: usize) -> (r: &'static str)
    requires
        d < 10,
    ensures
        r@ == seq![digit_char(d as int)],
{
    proof {
        reveal_strlit("0");
        reveal_strlit("1");
        reveal_strlit("2");
        reveal_strlit("3");
        reveal_strlit("4");
        reveal_strlit("5");
        reveal_strlit("6");
        reveal_strlit("7");
        reveal_strlit("8");
        reveal_strlit("9");
    }
    let r = if d == 0 {
        "0"
    } else if d == 1 {
        "1"
    } else if d == 2 {
        "2"
    } else if d == 3 {
        "3"
    } else if d == 4 {
        "4"
    } else if d == 5 {
        "5"
    } else if d == 6 {
        "6"
    } else if d == 7 {
        "7"
    } else if d == 8 {
        "8"
    } else {
        "9"
    };
    assert(r@ =~= seq![digit_char(d as int)]);
    r
}

/// The decimal notation of `n`, as `to_string` writes it.
pub fn decimal(n: usize) -> (r: String)
    ensures
        r@ == decimal_spec(n as nat),
{
    let mut m = n;
    let mut acc = String::new();
    assert(decimal_spec(n as nat) =~= decimal_spec(m as nat) + acc@);
    while m >= 10
        invariant
            decimal_spec(n as nat) == decimal_spec(m as nat) + acc@,
        decreases m,
    {
        let d = digit_text(m % 10);
        let ghost old_acc = acc@;
        acc = String::from_str(d).concat(acc.as_str());
        assert(decimal_spec(m as nat) == decimal_spec((m / 10) as nat) + seq![digit_char((m % 10) as int)]);
        assert(decimal_spec(n as nat) =~= decimal_spec((m / 10) as nat) + acc@);
        m = m / 10;
    }
    let d = digit_text(m);
    let r = String::from_str(d).concat(acc.as_str());
    assert(r@ =~= decimal_spec(n as nat));
    r
}

/// `s` followed by spaces up to `width` characters; unchanged when it is
/// already that long. This is what `{:<width}` writes.
pub open spec fn pad_right_spec(s: Seq<char>, width: nat) -> Seq<char> {
    if s.len() >= width {
        s
    } else {
        s + Seq::new((width - s.len()) as nat, |i: int| ' ')
    }
}

/// Left-aligns `s` in a field of `width` characters.
pub fn pad_right(s: &str, width: usize) -> (r: String)
    ensures
        r@ == pad_right_spec(s@, width as nat),
{
    let mut r = String::from_str(s);
    let len = s.unicode_len();
    if len >= width {
        return r;
    }
    let mut k: usize = len;
    proof {
        reveal_strlit(" ");
    }
    assert(r@ =~= s@ + Seq::new((k - len) as nat, |i: int| ' '));
    while k < width
        invariant
            len == s@.len(),
            len <= k <= width,
            " "@ == seq![' '],
            r@ == s@ + Seq::new((k - len) as nat, |i: int| ' '),
        decreases width - k,
    {
        r.append(" ");
        k = k + 1;
        assert(r@ =~= s@ + Seq::new((k - len) as nat, |i: int| ' '));
    }
    r
}

/// `n` copies of the character `c`.
pub open spec fn repeat_spec(c: char, n: nat) -> Seq<char> {
    Seq::new(n, |i: int| c)
}

/// A line of `n` dashes, as `"-".repeat(n)` gives it.
pub fn dash_line(n: usize) -> (r: String)
    ensures
        r@ == repeat_spec('-', n as nat),
{
    let mut r = String::new();
    let mut k: usize = 0;
    proof {
        reveal_strlit("-");
    }
    assert(r@ =~= repeat_spec('-', 0));
    while k < n
        invariant
            k <= n,
            "-"@ == seq!['-'],
            r@ == repeat_spec('-', k as nat),
        decreases n - k,
    {
        r.append("-");
        k = k + 1;
        assert(r@ =~= repeat_spec('-', k as nat));
    }
    r
}


/// `s` with every occurrence of `pat` removed, scanning left to right
/// without overlaps: what `s.replace(pat, "")` gives.
pub open spec fn remove_all_spec(s: Seq<char>, pat: Seq<char>) -> Seq<char>
    decreases s.len(),
{
    if pat.len() == 0 || s.len() < pat.len() {
        s
    } else if s.take(pat.len() as int) == pat {
        remove_all_spec(s.skip(pat.len() as int), pat)
    } else {
        seq![s[0]] + remove_all_spec(s.drop_first(), pat)
    }
}

/// Removes every occurrence of `pat` from `s`.
pub fn remove_all(s: &str, pat: &str) -> (r: String)
    ensures
        r@ == remove_all_spec(s@, pat@),
{
    let n = s.unicode_len();
    let p = pat.unicode_len();
    if p == 0 {
        return String::from_str(s);
    }
    let mut out = String::new();
    let mut i: usize = 0;
    assert(s@.skip(0) =~= s@);
    while i <= n && n - i >= p
        invariant
            n == s@.len(),
            p == pat@.len(),
            p > 0,
            i <= n,
            remove_all_spec(s@, pat@) == out@ + remove_all_spec(s@.skip(i as int), pat@),
        decreases n - i,
    {
        let ghost t = s@.skip(i as int);
        let window = s.substring_char(i, i + p);
        assert(t.take(p as int) =~= s@.subrange(i as int, i + p));
        if compare_text(window, pat) == TextOrder::Equal {
            assert(t.skip(p as int) =~= s@.skip(i + p));
            i = i + p;
        } else {
            let one = s.substring_char(i, i + 1);
            let ghost before = out@;
            out.append(one);
            assert(t.drop_first() =~= s@.skip(i + 1));
            assert(one@ =~= seq![t[0]]);
            assert(out@ + remove_all_spec(s@.skip(i + 1), pat@) =~= before + (seq![t[0]]
                + remove_all_spec(t.drop_first(), pat@)));
            i = i + 1;
        }
    }
    let rest = s.substring_char(i, n);
    assert(rest@ =~= s@.skip(i as int));
    out.append(rest);
    out
}

/// A text without any occurrence of `pat` is left as it is by removing
/// the occurrences of `pat`.
pub proof fn lemma_remove_all_no_occurrence(s: Seq<char>, pat: Seq<char>)
    requires
        !contains_spec(s, pat),
    ensures
        remove_all_spec(s, pat) == s,
    decreases s.len(),
{
    if pat.len() > 0 && s.len() >= pat.len() {
        if s.take(pat.len() as int) == pat {
            assert(s.subrange(0int, 0int + pat.len()) =~= s.take(pat.len() as int));
            assert(contains_spec(s, pat));
        }
        let d = s.drop_first();
        assert forall|i: int| 0 <= i && i + pat.len() <= d.len() implies #[trigger] d.subrange(i, i + pat.len()) != pat by {
            assert(d.subrange(i, i + pat.len()) =~= s.subrange(i + 1, i + 1 + pat.len()));
        }
        lemma_remove_all_no_occurrence(d, pat);
        assert(seq![s[0]] + d =~= s);
    }
}

} // verus!

//! Character-level helpers shared by the field parsers.
//!
//! Every function here works on the characters of a string, `s@`, and is
//! specified over `Seq<char>`.

use vstd::prelude::*;

verus! {

/// Whether `c` has the Unicode property `White_Space`.
pub open spec fn is_white_space(c: char) -> bool {
    let u = c as u32;
    ||| 0x09 <= u <= 0x0D
    ||| u == 0x20
    ||| u == 0x85
    ||| u == 0xA0
    ||| u == 0x1680
    ||| 0x2000 <= u <= 0x200A
    ||| u == 0x2028
    ||| u == 0x2029
    ||| u == 0x202F
    ||| u == 0x205F
    ||| u == 0x3000
}

/// `s` without its leading white space.
pub open spec fn trim_start_of(s: Seq<char>) -> Seq<char>
    decreases s.len(),
{
    if s.len() > 0 && is_white_space(s[0]) {
        trim_start_of(s.drop_first())
    } else {
        s
    }
}

/// `s` without its trailing white space.
pub open spec fn trim_end_of(s: Seq<char>) -> Seq<char>
    decreases s.len(),
{
    if s.len() > 0 && is_white_space(s.last()) {
        trim_end_of(s.drop_last())
    } else {
        s
    }
}

/// `s` without leading and trailing white space.
pub open spec fn trimmed(s: Seq<char>) -> Seq<char> {
    trim_end_of(trim_start_of(s))
}

/// The pieces of `s` between occurrences of `sep`, in order. There is always
/// at least one piece; a piece may be empty.
pub open spec fn split_on(s: Seq<char>, sep: char) -> Seq<Seq<char>>
    decreases s.len(),
{
    if s.len() == 0 {
        seq![Seq::<char>::empty()]
    } else {
        let before = split_on(s.drop_last(), sep);
        if s.last() == sep {
            before.push(Seq::<char>::empty())
        } else {
            before.drop_last().push(before.last().push(s.last()))
        }
    }
}

/// The maximal runs of characters of `s` that are not white space, in order.
pub open spec fn tokens_of(s: Seq<char>) -> Seq<Seq<char>>
    decreases s.len(),
{
    if s.len() == 0 {
        Seq::<Seq<char>>::empty()
    } else {
        let before = tokens_of(s.drop_last());
        if is_white_space(s.last()) {
            before
        } else if s.len() >= 2 && !is_white_space(s[s.len() - 2]) {
            before.drop_last().push(before.last().push(s.last()))
        } else {
            before.push(seq![s.last()])
        }
    }
}

/// The pieces of `parts` written one after another with `sep` between them.
pub open spec fn joined(parts: Seq<Seq<char>>, sep: Seq<char>) -> Seq<char>
    decreases parts.len(),
{
    if parts.len() == 0 {
        Seq::<char>::empty()
    } else if parts.len() == 1 {
        parts[0]
    } else {
        joined(parts.drop_last(), sep) + sep + parts.last()
    }
}

/// The character sequences that a vector of strings holds.
pub open spec fn views_of(v: Seq<String>) -> Seq<Seq<char>> {
    Seq::new(v.len(), |i: int| v[i]@)
}

/// Whether `c` is white space.
pub fn is_space(c: char) -> (b: bool)
    ensures
        b == is_white_space(c),
{
    let u: u32 = c as u32;
    (0x09 <= u && u <= 0x0D) || u == 0x20 || u == 0x85 || u == 0xA0 || u == 0x1680 || (0x2000 <= u
        && u <= 0x200A) || u == 0x2028 || u == 0x2029 || u == 0x202F || u == 0x205F || u == 0x3000
}

/// Copies the characters of `s` into a vector.
pub fn chars_of(s: &str) -> (out: Vec<char>)
    ensures
        out@ == s@,
{
    let mut out: Vec<char> = Vec::new();
    for c in it: s.chars()
        invariant
            out@ == it.seq().take(it.index() as int),
            it.seq() == s@,
    {
        out.push(c);
    }
    out
}

/// Whether `a` and `b` hold the same characters.
pub fn same_text(a: &str, b: &str) -> (same: bool)
    ensures
        same == (a@ == b@),
{
    let x = chars_of(a);
    let y = chars_of(b);
    if x.len() != y.len() {
        return false;
    }
    let mut i: usize = 0;
    while i < x.len()
        invariant
            i <= x.len(),
            x.len() == y.len(),
            x@ == a@,
            y@ == b@,
            forall|k: int| 0 <= k < i ==> x@[k] == y@[k],
        decreases x.len() - i,
    {
        if x[i] != y[i] {
            return false;
        }
        i += 1;
    }
    assert(x@ =~= y@);
    true
}

/// Leading white space can be skipped before trimming the start.
proof fn lemma_trim_start_skips(s: Seq<char>, i: int)
    requires
        0 <= i <= s.len(),
        forall|k: int| 0 <= k < i ==> is_white_space(s[k]),
    ensures
        trim_start_of(s) == trim_start_of(s.skip(i)),
    decreases i,
{
    if i > 0 {
        assert(s.drop_first().skip(i - 1) =~= s.skip(i));
        lemma_trim_start_skips(s.drop_first(), i - 1);
    } else {
        assert(s.skip(0) =~= s);
    }
}

/// Trailing white space can be dropped before trimming the end.
proof fn lemma_trim_end_drops(s: Seq<char>, j: int)
    requires
        0 <= j <= s.len(),
        forall|k: int| j <= k < s.len() ==> is_white_space(s[k]),
    ensures
        trim_end_of(s) == trim_end_of(s.take(j)),
    decreases s.len() - j,
{
    if j < s.len() {
        assert(s.drop_last().take(j) =~= s.take(j));
        lemma_trim_end_drops(s.drop_last(), j);
    } else {
        assert(s.take(j) =~= s);
    }
}

/// `s` without leading and trailing white space.
pub fn trim(s: &str) -> (out: String)
    ensures
        out@ == trimmed(s@),
{
    let chars = chars_of(s);
    let n = chars.len();
    let mut start: usize = 0;
    while start < n && is_space(chars[start])
        invariant
            start <= n,
            n == chars@.len(),
            forall|k: int| 0 <= k < start ==> is_white_space(chars@[k]),
        decreases n - start,
    {
        start += 1;
    }
    let mut end: usize = n;
    while end > start && is_space(chars[end - 1])
        invariant
            start <= end <= n,
            n == chars@.len(),
            forall|k: int| end <= k < n ==> is_white_space(chars@[k]),
        decreases end,
    {
        end -= 1;
    }
    proof {
        let rest = s@.skip(start as int);
        lemma_trim_start_skips(s@, start as int);
        assert(trim_start_of(rest) == rest);
        lemma_trim_end_drops(rest, end - start);
        let kept = rest.take(end - start);
        assert(kept =~= s@.subrange(start as int, end as int));
        assert(trim_end_of(kept) == kept);
    }
    s.substring_char(start, end).to_owned()
}

/// The pieces of `s` between occurrences of `sep`, in order.
pub fn split(s: &str, sep: char) -> (out: Vec<String>)
    ensures
        views_of(out@) == split_on(s@, sep),
{
    let chars = chars_of(s);
    let n = chars.len();
    let mut out: Vec<String> = Vec::new();
    let mut start: usize = 0;
    let mut i: usize = 0;
    proof {
        assert(s@.take(0) =~= Seq::<char>::empty());
        assert(views_of(out@).push(s@.subrange(0, 0)) =~= seq![Seq::<char>::empty()]);
    }
    while i < n
        invariant
            start <= i <= n,
            n == chars@.len(),
            chars@ == s@,
            split_on(s@.take(i as int), sep) == views_of(out@).push(
                s@.subrange(start as int, i as int),
            ),
        decreases n - i,
    {
        let ghost done = views_of(out@);
        proof {
            assert(s@.take(i + 1).drop_last() =~= s@.take(i as int));
            assert(s@.take(i + 1).last() == s@[i as int]);
        }
        if chars[i] == sep {
            out.push(s.substring_char(start, i).to_owned());
            proof {
                assert(views_of(out@) =~= done.push(s@.subrange(start as int, i as int)));
                assert(s@.subrange(i + 1, i + 1) =~= Seq::<char>::empty());
            }
            start = i + 1;
        } else {
            proof {
                let piece = s@.subrange(start as int, i as int);
                assert(done.push(piece).drop_last() =~= done);
                assert(piece.push(s@[i as int]) =~= s@.subrange(start as int, i + 1));
            }
        }
        i += 1;
    }
    proof {
        assert(s@.take(n as int) =~= s@);
    }
    let ghost done = views_of(out@);
    out.push(s.substring_char(start, n).to_owned());
    proof {
        assert(views_of(out@) =~= done.push(s@.subrange(start as int, n as int)));
    }
    out
}

/// The maximal runs of characters of `s` that are not white space, in order.
pub fn tokens(s: &str) -> (out: Vec<String>)
    ensures
        views_of(out@) == tokens_of(s@),
{
    let chars = chars_of(s);
    let n = chars.len();
    let mut out: Vec<String> = Vec::new();
    let mut start: usize = 0;
    let mut in_token = false;
    let mut i: usize = 0;
    proof {
        assert(s@.take(0) =~= Seq::<char>::empty());
        assert(views_of(out@) =~= Seq::<Seq<char>>::empty());
    }
    while i < n
        invariant
            i <= n,
            n == chars@.len(),
            chars@ == s@,
            in_token <==> (i > 0 && !is_white_space(s@[i - 1])),
            in_token ==> start < i,
            tokens_of(s@.take(i as int)) == if in_token {
                views_of(out@).push(s@.subrange(start as int, i as int))
            } else {
                views_of(out@)
            },
        decreases n - i,
    {
        let ghost done = views_of(out@);
        let c = chars[i];
        proof {
            assert(s@.take(i + 1).drop_last() =~= s@.take(i as int));
            assert(s@.take(i + 1).last() == s@[i as int]);
            if i > 0 {
                assert(s@.take(i + 1)[i - 1] == s@[i - 1]);
            }
        }
        if is_space(c) {
            if in_token {
                out.push(s.substring_char(start, i).to_owned());
                proof {
                    assert(views_of(out@) =~= done.push(s@.subrange(start as int, i as int)));
                }
                in_token = false;
            }
        } else if in_token {
            proof {
                let piece = s@.subrange(start as int, i as int);
                assert(done.push(piece).drop_last() =~= done);
                assert(piece.push(c) =~= s@.subrange(start as int, i + 1));
            }
        } else {
            proof {
                assert(seq![c] =~= s@.subrange(i as int, i + 1));
            }
            start = i;
            in_token = true;
        }
        i += 1;
    }
    proof {
        assert(s@.take(n as int) =~= s@);
    }
    if in_token {
        let ghost done = views_of(out@);
        out.push(s.substring_char(start, n).to_owned());
        proof {
            assert(views_of(out@) =~= done.push(s@.subrange(start as int, n as int)));
        }
    }
    out
}

/// The strings of `parts` written one after another with `sep` between them.
pub fn join(parts: &Vec<String>, sep: &str) -> (out: String)
    ensures
        out@ == joined(views_of(parts@), sep@),
{
    let mut out = String::new();
    let mut i: usize = 0;
    while i < parts.len()
        invariant
            i <= parts.len(),
            out@ == joined(views_of(parts@).take(i as int), sep@),
        decreases parts.len() - i,
    {
        proof {
            let all = views_of(parts@);
            assert(all.take(i + 1).drop_last() =~= all.take(i as int));
            assert(all.take(i + 1).last() == parts@[i as int]@);
            if i == 0 {
                assert(all.take(1)[0] == parts@[0]@);
            }
        }
        if i > 0 {
            out.append(sep);
        }
        out.append(parts[i].as_str());
        i += 1;
    }
    proof {
        assert(views_of(parts@).take(parts.len() as int) =~= views_of(parts@));
    }
    out
}

/// The character for a decimal digit.
pub open spec fn digit_char(d: nat) -> char
    recommends
        d < 10,
{
    if d == 0 {
        '0'
    } else if d == 1 {
        '1'
    } else if d == 2 {
        '2'
    } else if d == 3 {
        '3'
    } else if d == 4 {
        '4'
    } else if d == 5 {
        '5'
    } else if d == 6 {
        '6'
    } else if d == 7 {
        '7'
    } else if d == 8 {
        '8'
    } else {
        '9'
    }
}

/// The decimal numeral for `n`, without leading zeros.
pub open spec fn decimal_of(n: nat) -> Seq<char>
    decreases n,
{
    if n < 10 {
        seq![digit_char(n)]
    } else {
        decimal_of(n / 10).push(digit_char(n % 10))
    }
}

/// The numeral for one decimal digit.
fn digit_text(d: u32) -> (t: &'static str)
    requires
        d < 10,
    ensures
        t@ == seq![digit_char(d as nat)],
{
    proof {
        reveal_strlit("0");
        reveal_strlit("1");
        reveal_strlit("2");
        reveal_strlit("3");
        reveal_strlit("4");
        reveal_strlit("5");
        reveal_strlit("6");
        reveal_strlit("7");
        reveal_strlit("8");
        reveal_strlit("9");
    }
    let t = if d == 0 {
        "0"
    } else if d == 1 {
        "1"
    } else if d == 2 {
        "2"
    } else if d == 3 {
        "3"
    } else if d == 4 {
        "4"
    } else if d == 5 {
        "5"
    } else if d == 6 {
        "6"
    } else if d == 7 {
        "7"
    } else if d == 8 {
        "8"
    } else {
        "9"
    };
    assert(t@ =~= seq![digit_char(d as nat)]);
    t
}

/// The decimal numeral for `n`, without leading zeros.
pub fn decimal_string(n: u32) -> (out: String)
    ensures
        out@ == decimal_of(n as nat),
    decreases n,
{
    if n < 10 {
        digit_text(n).to_owned()
    } else {
        let mut out = decimal_string(n / 10);
        out.append(digit_text(n % 10));
        out
    }
}

/// The split of a text has at least one piece.
pub proof fn lemma_split_is_not_empty(s: Seq<char>, sep: char)
    ensures
        split_on(s, sep).len() >= 1,
    decreases s.len(),
{
    if s.len() > 0 {
        lemma_split_is_not_empty(s.drop_last(), sep);
    }
}

/// A text without the separator is its own single piece.
pub proof fn lemma_split_without_separator(s: Seq<char>, sep: char)
    requires
        forall|i: int| 0 <= i < s.len() ==> s[i] != sep,
    ensures
        split_on(s, sep) == seq![s],
    decreases s.len(),
{
    if s.len() == 0 {
        assert(s =~= Seq::<char>::empty());
    } else {
        lemma_split_without_separator(s.drop_last(), sep);
        assert(s.drop_last().push(s.last()) =~= s);
        assert(seq![s.drop_last()].drop_last().push(s) =~= seq![s]);
    }
}

/// The pieces of two texts with a separator between them are the pieces of
/// the first followed by the pieces of the second.
pub proof fn lemma_split_concat(a: Seq<char>, b: Seq<char>, sep: char)
    ensures
        split_on(a + seq![sep] + b, sep) == split_on(a, sep) + split_on(b, sep),
    decreases b.len(),
{
    let s = a + seq![sep] + b;
    if b.len() == 0 {
        assert(s.drop_last() =~= a);
        assert(split_on(a, sep) + split_on(b, sep) =~= split_on(a, sep).push(Seq::<char>::empty()));
    } else {
        assert(s.drop_last() =~= a + seq![sep] + b.drop_last());
        assert(s.last() == b.last());
        lemma_split_concat(a, b.drop_last(), sep);
        lemma_split_is_not_empty(b.drop_last(), sep);
        let first = split_on(a, sep);
        let second = split_on(b.drop_last(), sep);
        if b.last() == sep {
            assert((first + second).push(Seq::<char>::empty()) =~= first + second.push(
                Seq::<char>::empty(),
            ));
        } else {
            assert((first + second).last() == second.last());
            assert((first + second).drop_last() =~= first + second.drop_last());
            assert((first + second.drop_last()).push(second.last().push(b.last())) =~= first
                + second.drop_last().push(second.last().push(b.last())));
        }
    }
}

/// White space before a text adds no token.
pub proof fn lemma_tokens_skip_leading_space(c: char, s: Seq<char>)
    requires
        is_white_space(c),
    ensures
        tokens_of(seq![c] + s) == tokens_of(s),
    decreases s.len(),
{
    let x = seq![c] + s;
    if s.len() == 0 {
        assert(x.drop_last() =~= s);
    } else {
        assert(x.drop_last() =~= seq![c] + s.drop_last());
        assert(x.last() == s.last());
        lemma_tokens_skip_leading_space(c, s.drop_last());
        if s.len() >= 2 {
            assert(x[x.len() - 2] == s[s.len() - 2]);
        } else {
            assert(x[x.len() - 2] == c);
        }
    }
}

/// A run without white space that follows white space is a token of its own.
pub proof fn lemma_tokens_after_space(a: Seq<char>, c: char, t: Seq<char>)
    requires
        is_white_space(c),
        t.len() > 0,
        forall|i: int| 0 <= i < t.len() ==> !is_white_space(t[i]),
    ensures
        tokens_of(a + seq![c] + t) == tokens_of(a).push(t),
    decreases t.len(),
{
    let s = a + seq![c] + t;
    assert(s.drop_last() =~= a + seq![c] + t.drop_last());
    assert(s.last() == t.last());
    if t.len() == 1 {
        assert(s.drop_last() =~= a + seq![c]);
        assert((a + seq![c]).drop_last() =~= a);
        assert((a + seq![c]).last() == c);
        assert(tokens_of(a + seq![c]) == tokens_of(a));
        assert(s[s.len() - 2] == c);
        assert(seq![t.last()] =~= t);
    } else {
        lemma_tokens_after_space(a, c, t.drop_last());
        assert(s[s.len() - 2] == t[t.len() - 2]);
        let before = tokens_of(a).push(t.drop_last());
        assert(before.drop_last() =~= tokens_of(a));
        assert(t.drop_last().push(t.last()) =~= t);
    }
}

/// Trimming a text changes none of its tokens.
pub proof fn lemma_tokens_of_trimmed(s: Seq<char>)
    ensures
        tokens_of(trimmed(s)) == tokens_of(s),
{
    lemma_tokens_of_trim_start(s);
    lemma_tokens_of_trim_end(trim_start_of(s));
}

/// Trimming the start of a text changes none of its tokens.
proof fn lemma_tokens_of_trim_start(s: Seq<char>)
    ensures
        tokens_of(trim_start_of(s)) == tokens_of(s),
    decreases s.len(),
{
    if s.len() > 0 && is_white_space(s[0]) {
        lemma_tokens_of_trim_start(s.drop_first());
        lemma_tokens_skip_leading_space(s[0], s.drop_first());
        assert(seq![s[0]] + s.drop_first() =~= s);
    }
}

/// Trimming the end of a text changes none of its tokens.
proof fn lemma_tokens_of_trim_end(s: Seq<char>)
    ensures
        tokens_of(trim_end_of(s)) == tokens_of(s),
    decreases s.len(),
{
    if s.len() > 0 && is_white_space(s.last()) {
        lemma_tokens_of_trim_end(s.drop_last());
    }
}

/// No piece of a split holds the separator.
pub proof fn lemma_split_pieces_have_no_separator(s: Seq<char>, sep: char)
    ensures
        forall|i: int, j: int|
            0 <= i < split_on(s, sep).len() && 0 <= j < split_on(s, sep)[i].len() ==> split_on(
                s,
                sep,
            )[i][j] != sep,
    decreases s.len(),
{
    if s.len() > 0 {
        lemma_split_pieces_have_no_separator(s.drop_last(), sep);
        lemma_split_is_not_empty(s.drop_last(), sep);
    }
}

/// Every token is a run without white space, and not empty.
pub proof fn lemma_tokens_are_runs(s: Seq<char>)
    ensures
        forall|i: int| 0 <= i < tokens_of(s).len() ==> (#[trigger] tokens_of(s)[i]).len() > 0,
        forall|i: int, j: int|
            0 <= i < tokens_of(s).len() && 0 <= j < tokens_of(s)[i].len() ==> !is_white_space(
                tokens_of(s)[i][j],
            ),
        s.len() > 0 && !is_white_space(s.last()) ==> tokens_of(s).len() > 0,
    decreases s.len(),
{
    if s.len() > 0 {
        let before = tokens_of(s.drop_last());
        let all = tokens_of(s);
        lemma_tokens_are_runs(s.drop_last());
        if is_white_space(s.last()) {
        } else if s.len() >= 2 && !is_white_space(s[s.len() - 2]) {
            assert(s.drop_last().last() == s[s.len() - 2]);
            let grown = before.last().push(s.last());
            assert(all == before.drop_last().push(grown));
            assert forall|i: int| 0 <= i < all.len() implies (#[trigger] all[i]).len() > 0 by {
                if i < all.len() - 1 {
                    assert(all[i] == before[i]);
                }
            }
            assert forall|i: int, j: int|
                0 <= i < all.len() && 0 <= j < all[i].len() implies !is_white_space(all[i][j]) by {
                if i < all.len() - 1 {
                    assert(all[i] == before[i]);
                } else if j < grown.len() - 1 {
                    assert(grown[j] == before.last()[j]);
                }
            }
        } else {
            assert(all == before.push(seq![s.last()]));
            assert forall|i: int| 0 <= i < all.len() implies (#[trigger] all[i]).len() > 0 by {
                if i < all.len() - 1 {
                    assert(all[i] == before[i]);
                }
            }
            assert forall|i: int, j: int|
                0 <= i < all.len() && 0 <= j < all[i].len() implies !is_white_space(all[i][j]) by {
                if i < all.len() - 1 {
                    assert(all[i] == before[i]);
                }
            }
        }
    }
}

/// Text trimmed at the end is a prefix that ends with no white space.
proof fn lemma_trim_end_shape(s: Seq<char>)
    ensures
        trim_end_of(s).len() <= s.len(),
        trim_end_of(s) == s.take(trim_end_of(s).len() as int),
        trim_end_of(s).len() > 0 ==> !is_white_space(trim_end_of(s).last()),
    decreases s.len(),
{
    if s.len() > 0 && is_white_space(s.last()) {
        lemma_trim_end_shape(s.drop_last());
        let kept = trim_end_of(s.drop_last());
        assert(s.drop_last().take(kept.len() as int) =~= s.take(kept.len() as int));
    } else {
        assert(s.take(s.len() as int) =~= s);
    }
}

/// Whether `part` is a stretch of `whole`: characters of it that stand one
/// after another.
pub open spec fn is_part_of(part: Seq<char>, whole: Seq<char>) -> bool {
    exists|from: int, to: int|
        0 <= from <= to <= whole.len() && part == #[trigger] whole.subrange(from, to)
}

/// A stretch of a stretch of a text is a stretch of the text.
pub proof fn lemma_part_of_part(inner: Seq<char>, middle: Seq<char>, outer: Seq<char>)
    requires
        is_part_of(inner, middle),
        is_part_of(middle, outer),
    ensures
        is_part_of(inner, outer),
{
    let (a, b) = choose|a: int, b: int|
        0 <= a <= b <= middle.len() && inner == #[trigger] middle.subrange(a, b);
    let (c, d) = choose|c: int, d: int|
        0 <= c <= d <= outer.len() && middle == #[trigger] outer.subrange(c, d);
    assert(inner =~= outer.subrange(c + a, c + b));
}

/// Text trimmed at the start is what stands at the end of the text.
proof fn lemma_trim_start_is_suffix(s: Seq<char>)
    ensures
        trim_start_of(s).len() <= s.len(),
        trim_start_of(s) == s.skip(s.len() - trim_start_of(s).len()),
    decreases s.len(),
{
    if s.len() > 0 && is_white_space(s[0]) {
        lemma_trim_start_is_suffix(s.drop_first());
        let kept = trim_start_of(s.drop_first());
        assert(s.drop_first().skip(s.len() - 1 - kept.len()) =~= s.skip(s.len() - kept.len()));
    } else {
        assert(s.skip(0) =~= s);
    }
}

/// Trimmed text is a stretch of the text.
pub proof fn lemma_trimmed_is_part(s: Seq<char>)
    ensures
        is_part_of(trimmed(s), s),
{
    lemma_trim_start_is_suffix(s);
    let started = trim_start_of(s);
    lemma_trim_end_shape(started);
    let from = s.len() - started.len();
    let kept = trimmed(s).len();
    assert(trimmed(s) =~= s.subrange(from, from + kept));
}

/// Every token of a text is a stretch of it, and a text that ends without
/// white space ends with its last token.
pub proof fn lemma_tokens_are_parts(s: Seq<char>)
    ensures
        forall|i: int| 0 <= i < tokens_of(s).len() ==> is_part_of(#[trigger] tokens_of(s)[i], s),
        s.len() > 0 && !is_white_space(s.last()) ==> tokens_of(s).len() > 0 && tokens_of(
            s,
        ).last().len() <= s.len() && tokens_of(s).last() == s.skip(
            s.len() - tokens_of(s).last().len(),
        ),
    decreases s.len(),
{
    if s.len() > 0 {
        let before_text = s.drop_last();
        let before = tokens_of(before_text);
        let all = tokens_of(s);
        lemma_tokens_are_parts(before_text);
        assert(before_text == s.subrange(0, s.len() - 1));
        assert(is_part_of(before_text, s));
        assert forall|i: int| 0 <= i < before.len() implies is_part_of(#[trigger] before[i], s) by {
            lemma_part_of_part(before[i], before_text, s);
        }
        if is_white_space(s.last()) {
        } else if s.len() >= 2 && !is_white_space(s[s.len() - 2]) {
            assert(before_text.last() == s[s.len() - 2]);
            let grown = before.last().push(s.last());
            assert(all == before.drop_last().push(grown));
            assert(grown =~= s.skip(s.len() - grown.len()));
            assert(grown == s.subrange(s.len() - grown.len(), s.len() as int));
            assert forall|i: int| 0 <= i < all.len() implies is_part_of(#[trigger] all[i], s) by {
                if i < all.len() - 1 {
                    assert(all[i] == before[i]);
                }
            }
        } else {
            let single = seq![s.last()];
            assert(all == before.push(single));
            assert(single =~= s.skip(s.len() - 1));
            assert(single == s.subrange(s.len() - 1, s.len() as int));
            assert forall|i: int| 0 <= i < all.len() implies is_part_of(#[trigger] all[i], s) by {
                if i < all.len() - 1 {
                    assert(all[i] == before[i]);
                }
            }
        }
    }
}

/// Every piece of a split is a stretch of the text, and the text ends with
/// the last piece.
pub proof fn lemma_split_pieces_are_parts(s: Seq<char>, sep: char)
    ensures
        forall|i: int|
            0 <= i < split_on(s, sep).len() ==> is_part_of(#[trigger] split_on(s, sep)[i], s),
        split_on(s, sep).len() > 0,
        split_on(s, sep).last().len() <= s.len(),
        split_on(s, sep).last() == s.skip(s.len() - split_on(s, sep).last().len()),
    decreases s.len(),
{
    let all = split_on(s, sep);
    if s.len() == 0 {
        assert(all[0] =~= s.subrange(0, 0));
        assert(all.last() =~= s.skip(0));
    } else {
        let before_text = s.drop_last();
        let before = split_on(before_text, sep);
        lemma_split_pieces_are_parts(before_text, sep);
        assert(before_text == s.subrange(0, s.len() - 1));
        assert(is_part_of(before_text, s));
        assert forall|i: int| 0 <= i < before.len() implies is_part_of(#[trigger] before[i], s) by {
            lemma_part_of_part(before[i], before_text, s);
        }
        if s.last() == sep {
            let none = Seq::<char>::empty();
            assert(all == before.push(none));
            assert(none =~= s.skip(s.len() as int));
            assert(none == s.subrange(s.len() as int, s.len() as int));
            assert forall|i: int| 0 <= i < all.len() implies is_part_of(#[trigger] all[i], s) by {
                if i < all.len() - 1 {
                    assert(all[i] == before[i]);
                }
            }
        } else {
            let grown = before.last().push(s.last());
            assert(all == before.drop_last().push(grown));
            assert(grown =~= s.skip(s.len() - grown.len()));
            assert(grown == s.subrange(s.len() - grown.len(), s.len() as int));
            assert forall|i: int| 0 <= i < all.len() implies is_part_of(#[trigger] all[i], s) by {
                if i < all.len() - 1 {
                    assert(all[i] == before[i]);
                }
            }
        }
    }
}

} // verus!

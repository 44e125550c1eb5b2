//! Character-level text operations with their mathematical models.
use vstd::prelude::*;

verus! {

/// Whitespace as the shell understands it when it trims and tokenizes: the
/// characters with the Unicode `White_Space` property.
pub open spec fn is_space(c: char) -> bool {
    ('\t' <= c <= '\r') || c == ' ' || c == '\u{85}' || c == '\u{A0}' || c == '\u{1680}' || (
    '\u{2000}' <= c <= '\u{200A}') || c == '\u{2028}' || c == '\u{2029}' || c == '\u{202F}' || c
        == '\u{205F}' || c == '\u{3000}'
}

/// The views of a sequence of strings.
pub open spec fn views(v: Seq<String>) -> Seq<Seq<char>> {
    v.map_values(|x: String| x@)
}

/// The pieces of `s` between occurrences of `sep`; there is always at least one.
pub open spec fn split_spec(s: Seq<char>, sep: char) -> Seq<Seq<char>>
    decreases s.len(),
{
    if s.len() == 0 {
        seq![Seq::<char>::empty()]
    } else {
        let prev = split_spec(s.drop_last(), sep);
        if s.last() == sep {
            prev.push(Seq::<char>::empty())
        } else {
            prev.update(prev.len() - 1, prev.last().push(s.last()))
        }
    }
}

/// The maximal runs of non-whitespace characters of `s`, in order.
pub open spec fn tokens_spec(s: Seq<char>) -> Seq<Seq<char>>
    decreases s.len(),
{
    if s.len() == 0 {
        Seq::empty()
    } else {
        let prev = tokens_spec(s.drop_last());
        if is_space(s.last()) {
            prev
        } else if s.len() >= 2 && !is_space(s[s.len() - 2]) {
            prev.update(prev.len() - 1, prev.last().push(s.last()))
        } else {
            prev.push(seq![s.last()])
        }
    }
}

/// `s` without its leading whitespace.
pub open spec fn trim_start_spec(s: Seq<char>) -> Seq<char>
    decreases s.len(),
{
    if s.len() > 0 && is_space(s[0]) {
        trim_start_spec(s.drop_first())
    } else {
        s
    }
}

/// `s` without its trailing whitespace.
pub open spec fn trim_end_spec(s: Seq<char>) -> Seq<char>
    decreases s.len(),
{
    if s.len() > 0 && is_space(s.last()) {
        trim_end_spec(s.drop_last())
    } else {
        s
    }
}

/// `s` without leading and trailing whitespace.
pub open spec fn trim_spec(s: Seq<char>) -> Seq<char> {
    trim_end_spec(trim_start_spec(s))
}

/// `needle` occurs in `hay` at position `i`.
pub open spec fn occurs_at(hay: Seq<char>, needle: Seq<char>, i: int) -> bool {
    0 <= i && i + needle.len() <= hay.len() && hay.subrange(i, i + needle.len()) == needle
}

/// `needle` occurs somewhere in `hay`.
pub open spec fn contains_spec(hay: Seq<char>, needle: Seq<char>) -> bool {
    exists|i: int| occurs_at(hay, needle, i)
}

/// Every non-overlapping occurrence of `from` in `s`, taken from the left, replaced by
/// `to`. An empty `from` matches before every character and at the end.
pub open spec fn replace_spec(s: Seq<char>, from: Seq<char>, to: Seq<char>) -> Seq<char>
    decreases s.len(),
{
    if s.len() == 0 {
        if from.len() == 0 {
            to
        } else {
            s
        }
    } else if from.len() == 0 {
        to + seq![s[0]] + replace_spec(s.drop_first(), from, to)
    } else if occurs_at(s, from, 0) {
        to + replace_spec(s.subrange(from.len() as int, s.len() as int), from, to)
    } else {
        seq![s[0]] + replace_spec(s.drop_first(), from, to)
    }
}

/// The strings of `items`, with a single space between neighbours.
pub open spec fn join_spec(items: Seq<Seq<char>>) -> Seq<char>
    decreases items.len(),
{
    if items.len() == 0 {
        Seq::empty()
    } else if items.len() == 1 {
        items[0]
    } else {
        join_spec(items.drop_last()) + seq![' '] + items.last()
    }
}

/// All the strings of `items`, one after the other.
pub open spec fn concat_spec(items: Seq<Seq<char>>) -> Seq<char>
    decreases items.len(),
{
    if items.len() == 0 {
        Seq::empty()
    } else {
        concat_spec(items.drop_last()) + items.last()
    }
}

/// Splitting always yields at least one piece.
pub proof fn lemma_split_nonempty(s: Seq<char>, sep: char)
    ensures
        split_spec(s, sep).len() >= 1,
    decreases s.len(),
{
    if s.len() > 0 {
        lemma_split_nonempty(s.drop_last(), sep);
    }
}

pub fn is_space_char(c: char) -> (r: bool)
    ensures
        r == is_space(c),
{
    ('\t' <= c && c <= '\r') || c == ' ' || c == '\u{85}' || c == '\u{A0}' || c == '\u{1680}'
        || ('\u{2000}' <= c && c <= '\u{200A}') || c == '\u{2028}' || c == '\u{2029}' || c
        == '\u{202F}' || c == '\u{205F}' || c == '\u{3000}'
}

/// Relies on `String::push`: appends one character.
#[verifier::external_body]
fn push_char(s: &mut String, c: char)
    ensures
        final(s)@ == old(s)@.push(c),
{
    s.push(c)
}

/// The characters of `s`, in order.
pub fn chars_of(s: &str) -> (r: Vec<char>)
    ensures
        r@ == s@,
{
    let mut v: Vec<char> = Vec::new();
    for c in it: s.chars()
        invariant
            v@ == it.seq().subrange(0, it.index() as int),
    {
        v.push(c);
    }
    v
}

/// The string made of `cs[from..to]`.
pub fn string_of(cs: &Vec<char>, from: usize, to: usize) -> (r: String)
    requires
        from <= to <= cs@.len(),
    ensures
        r@ == cs@.subrange(from as int, to as int),
{
    let mut r = String::new();
    let mut i: usize = from;
    while i < to
        invariant
            from <= i <= to <= cs@.len(),
            r@ == cs@.subrange(from as int, i as int),
        decreases to - i,
    {
        push_char(&mut r, cs[i]);
        proof {
            assert(cs@.subrange(from as int, i + 1) =~= cs@.subrange(from as int, i as int).push(
                cs@[i as int],
            ));
        }
        i = i + 1;
    }
    r
}

/// Splits `s` at every occurrence of `sep`.
pub fn split_on(s: &str, sep: char) -> (r: Vec<String>)
    ensures
        views(r@) == split_spec(s@, sep),
{
    let cs = chars_of(s);
    let n = cs.len();
    let mut pieces: Vec<String> = Vec::new();
    let mut start: usize = 0;
    let mut i: usize = 0;
    proof {
        assert(cs@.subrange(0, 0) =~= Seq::<char>::empty());
        assert(views(pieces@).push(cs@.subrange(0, 0)) =~= seq![Seq::<char>::empty()]);
    }
    while i < n
        invariant
            n == cs@.len(),
            start <= i <= n,
            split_spec(cs@.subrange(0, i as int), sep) == views(pieces@).push(
                cs@.subrange(start as int, i as int),
            ),
        decreases n - i,
    {
        let c = cs[i];
        proof {
            assert(cs@.subrange(0, i + 1).drop_last() == cs@.subrange(0, i as int));
            assert(cs@.subrange(0, i + 1).last() == c);
        }
        if c == sep {
            let piece = string_of(&cs, start, i);
            let ghost before = pieces@;
            pieces.push(piece);
            proof {
                assert(views(pieces@) =~= views(before).push(piece@));
                assert(cs@.subrange(i + 1, i + 1) =~= Seq::<char>::empty());
            }
            start = i + 1;
        } else {
            proof {
                assert(cs@.subrange(start as int, i + 1) =~= cs@.subrange(
                    start as int,
                    i as int,
                ).push(c));
            }
        }
        i = i + 1;
    }
    let last = string_of(&cs, start, n);
    let ghost before = pieces@;
    pieces.push(last);
    proof {
        assert(cs@.subrange(0, n as int) =~= cs@);
        assert(views(pieces@) =~= views(before).push(last@));
    }
    pieces
}

/// The texts of `cs` between the bounds of `spans`.
pub open spec fn span_texts(cs: Seq<char>, spans: Seq<(usize, usize)>) -> Seq<Seq<char>> {
    spans.map_values(|p: (usize, usize)| cs.subrange(p.0 as int, p.1 as int))
}

/// Every span lies within `len` characters.
pub open spec fn spans_within(spans: Seq<(usize, usize)>, len: nat) -> bool {
    forall|k: int| 0 <= k < spans.len() ==> (#[trigger] spans[k]).0 <= spans[k].1 <= len
}

/// The bounds of the whitespace-separated tokens of `cs`.
pub fn token_spans(cs: &Vec<char>) -> (r: Vec<(usize, usize)>)
    ensures
        spans_within(r@, cs@.len()),
        span_texts(cs@, r@) == tokens_spec(cs@),
{
    let n = cs.len();
    let mut spans: Vec<(usize, usize)> = Vec::new();
    let mut start: usize = 0;
    let mut in_token = false;
    let mut i: usize = 0;
    proof {
        assert(cs@.subrange(0, 0) =~= Seq::<char>::empty());
        assert(span_texts(cs@, spans@) =~= Seq::<Seq<char>>::empty());
    }
    while i < n
        invariant
            n == cs@.len(),
            start <= i <= n,
            in_token == (i > 0 && !is_space(cs@[i - 1])),
            in_token ==> start < i,
            spans_within(spans@, n as nat),
            tokens_spec(cs@.subrange(0, i as int)) == if in_token {
                span_texts(cs@, spans@).push(cs@.subrange(start as int, i as int))
            } else {
                span_texts(cs@, spans@)
            },
        decreases n - i,
    {
        let c = cs[i];
        let ghost pre = cs@.subrange(0, i + 1);
        proof {
            assert(pre.drop_last() == cs@.subrange(0, i as int));
            assert(pre.last() == c);
            if i > 0 {
                assert(pre[pre.len() - 2] == cs@[i - 1]);
            }
        }
        if is_space_char(c) {
            if in_token {
                let ghost before = spans@;
                spans.push((start, i));
                proof {
                    assert(span_texts(cs@, spans@) =~= span_texts(cs@, before).push(
                        cs@.subrange(start as int, i as int),
                    ));
                }
            }
            in_token = false;
        } else if in_token {
            proof {
                assert(cs@.subrange(start as int, i + 1) =~= cs@.subrange(
                    start as int,
                    i as int,
                ).push(c));
            }
        } else {
            start = i;
            in_token = true;
            proof {
                assert(cs@.subrange(i as int, i + 1) =~= seq![c]);
            }
        }
        i = i + 1;
    }
    proof {
        assert(cs@.subrange(0, n as int) =~= cs@);
    }
    if in_token {
        let ghost before = spans@;
        spans.push((start, n));
        proof {
            assert(span_texts(cs@, spans@) =~= span_texts(cs@, before).push(
                cs@.subrange(start as int, n as int),
            ));
        }
    }
    spans
}

/// The whitespace-separated tokens of `s`.
pub fn tokens(s: &str) -> (r: Vec<String>)
    ensures
        views(r@) == tokens_spec(s@),
{
    let cs = chars_of(s);
    let spans = token_spans(&cs);
    let mut toks: Vec<String> = Vec::new();
    let mut i: usize = 0;
    while i < spans.len()
        invariant
            i <= spans@.len(),
            spans_within(spans@, cs@.len()),
            views(toks@) == span_texts(cs@, spans@).subrange(0, i as int),
        decreases spans@.len() - i,
    {
        let (a, b) = spans[i];
        let t = string_of(&cs, a, b);
        let ghost before = toks@;
        toks.push(t);
        proof {
            assert(views(toks@) =~= views(before).push(t@));
            assert(span_texts(cs@, spans@)[i as int] == cs@.subrange(a as int, b as int));
            assert(span_texts(cs@, spans@).subrange(0, i + 1) =~= span_texts(cs@, spans@).subrange(
                0,
                i as int,
            ).push(t@));
        }
        i = i + 1;
    }
    proof {
        assert(span_texts(cs@, spans@).subrange(0, spans@.len() as int) =~= span_texts(cs@, spans@));
    }
    toks
}

/// `s` without leading and trailing whitespace.
pub fn trim(s: &str) -> (r: String)
    ensures
        r@ == trim_spec(s@),
{
    let cs = chars_of(s);
    let n = cs.len();
    let mut a: usize = 0;
    proof {
        assert(cs@.subrange(0, n as int) =~= cs@);
    }
    while a < n && is_space_char(cs[a])
        invariant
            n == cs@.len(),
            a <= n,
            trim_start_spec(cs@) == trim_start_spec(cs@.subrange(a as int, n as int)),
        decreases n - a,
    {
        proof {
            let t = cs@.subrange(a as int, n as int);
            assert(t.drop_first() =~= cs@.subrange(a + 1, n as int));
        }
        a = a + 1;
    }
    let ghost t = cs@.subrange(a as int, n as int);
    let mut b: usize = n;
    proof {
        assert(trim_start_spec(t) == t);
    }
    while b > a && is_space_char(cs[b - 1])
        invariant
            n == cs@.len(),
            a <= b <= n,
            t == cs@.subrange(a as int, n as int),
            trim_end_spec(t) == trim_end_spec(cs@.subrange(a as int, b as int)),
        decreases b,
    {
        proof {
            let u = cs@.subrange(a as int, b as int);
            assert(u.drop_last() =~= cs@.subrange(a as int, b - 1));
        }
        b = b - 1;
    }
    string_of(&cs, a, b)
}

/// Whether `needle` occurs at position `i` of `hay`.
fn occurs_at_exec(hay: &Vec<char>, needle: &Vec<char>, i: usize) -> (r: bool)
    ensures
        r == occurs_at(hay@, needle@, i as int),
{
    if needle.len() > hay.len() || i > hay.len() - needle.len() {
        return false;
    }
    let mut j: usize = 0;
    while j < needle.len()
        invariant
            i + needle@.len() <= hay@.len(),
            j <= needle@.len(),
            forall|k: int| 0 <= k < j ==> hay@[i + k] == needle@[k],
        decreases needle@.len() - j,
    {
        assert(i + j < hay.len());
        if hay[i + j] != needle[j] {
            proof {
                assert(hay@.subrange(i as int, i + needle@.len())[j as int] != needle@[j as int]);
            }
            return false;
        }
        j = j + 1;
    }
    proof {
        assert(hay@.subrange(i as int, i + needle@.len()) =~= needle@);
    }
    true
}

/// Whether `needle` occurs somewhere in `hay`.
pub fn contains(hay: &str, needle: &str) -> (r: bool)
    ensures
        r == contains_spec(hay@, needle@),
{
    let h = chars_of(hay);
    let nd = chars_of(needle);
    if nd.len() == 0 {
        proof {
            assert(hay@.subrange(0, 0) =~= needle@);
            assert(occurs_at(hay@, needle@, 0));
        }
        return true;
    }
    if nd.len() > h.len() {
        return false;
    }
    let last = h.len() - nd.len();
    let mut i: usize = 0;
    while i <= last
        invariant
            last == h@.len() - nd@.len(),
            last < h.len(),
            h@ == hay@,
            nd@ == needle@,
            forall|k: int| 0 <= k < i ==> !occurs_at(hay@, needle@, k),
        decreases last + 1 - i,
    {
        if occurs_at_exec(&h, &nd, i) {
            return true;
        }
        i = i + 1;
    }
    false
}

/// `s` with every occurrence of `from` replaced by `to`.
pub fn replace(s: &str, from: &str, to: &str) -> (r: String)
    ensures
        r@ == replace_spec(s@, from@, to@),
{
    let cs = chars_of(s);
    let fs = chars_of(from);
    let n = cs.len();
    let m = fs.len();
    let mut r = String::new();
    let mut i: usize = 0;
    proof {
        assert(cs@.subrange(0, n as int) =~= cs@);
        assert(r@ + replace_spec(cs@, from@, to@) =~= replace_spec(cs@, from@, to@));
    }
    while i < n
        invariant
            n == cs@.len(),
            m == fs@.len(),
            cs@ == s@,
            fs@ == from@,
            i <= n,
            r@ + replace_spec(cs@.subrange(i as int, n as int), from@, to@) == replace_spec(
                s@,
                from@,
                to@,
            ),
        decreases n - i,
    {
        let ghost rest = cs@.subrange(i as int, n as int);
        if m == 0 {
            r.append(to);
            push_char(&mut r, cs[i]);
            proof {
                assert(rest.drop_first() =~= cs@.subrange(i + 1, n as int));
                assert(rest[0] == cs@[i as int]);
            }
            i = i + 1;
        } else if occurs_at_exec(&cs, &fs, i) {
            r.append(to);
            proof {
                assert(rest.subrange(0, m as int) =~= cs@.subrange(i as int, i + m));
                assert(occurs_at(rest, from@, 0));
                assert(rest.subrange(m as int, rest.len() as int) =~= cs@.subrange(i + m, n as int));
            }
            i = i + m;
        } else {
            push_char(&mut r, cs[i]);
            proof {
                assert(rest.drop_first() =~= cs@.subrange(i + 1, n as int));
                assert(rest[0] == cs@[i as int]);
                if occurs_at(rest, from@, 0) {
                    assert(rest.subrange(0, m as int) =~= cs@.subrange(i as int, i + m));
                }
            }
            i = i + 1;
        }
    }
    proof {
        assert(cs@.subrange(n as int, n as int) =~= Seq::<char>::empty());
    }
    if m == 0 {
        r.append(to);
    }
    r
}

/// The strings of `items`, with a single space between neighbours.
pub fn join_spaced(items: &Vec<String>) -> (r: String)
    ensures
        r@ == join_spec(views(items@)),
{
    let mut r = String::new();
    let mut i: usize = 0;
    while i < items.len()
        invariant
            i <= items@.len(),
            r@ == join_spec(views(items@).subrange(0, i as int)),
        decreases items@.len() - i,
    {
        let ghost pre = views(items@).subrange(0, i + 1);
        proof {
            assert(pre.drop_last() =~= views(items@).subrange(0, i as int));
        }
        if i > 0 {
            push_char(&mut r, ' ');
        }
        r.append(items[i].as_str());
        i = i + 1;
    }
    proof {
        assert(views(items@).subrange(0, items@.len() as int) =~= views(items@));
    }
    r
}

/// All the strings of `items`, one after the other.
pub fn concat_all(items: &Vec<String>) -> (r: String)
    ensures
        r@ == concat_spec(views(items@)),
{
    let mut r = String::new();
    let mut i: usize = 0;
    while i < items.len()
        invariant
            i <= items@.len(),
            r@ == concat_spec(views(items@).subrange(0, i as int)),
        decreases items@.len() - i,
    {
        proof {
            assert(views(items@).subrange(0, i + 1).drop_last() =~= views(items@).subrange(
                0,
                i as int,
            ));
        }
        r.append(items[i].as_str());
        i = i + 1;
    }
    proof {
        assert(views(items@).subrange(0, items@.len() as int) =~= views(items@));
    }
    r
}

} // verus!

use vstd::prelude::*;

verus! {

// ---------------------------------------------------------------------------
// Specifications of the text operations the inspection reports rely on.
// Text is modelled as a sequence of Unicode scalar values (`Seq<char>`).
// ---------------------------------------------------------------------------

/// A Unicode `White_Space` character, the set `char::is_whitespace` accepts.
pub open spec fn is_ws(c: char) -> bool {
    ||| ('\u{9}' <= c && c <= '\u{d}')
    ||| c == ' '
    ||| c == '\u{85}'
    ||| c == '\u{a0}'
    ||| c == '\u{1680}'
    ||| ('\u{2000}' <= c && c <= '\u{200a}')
    ||| c == '\u{2028}'
    ||| c == '\u{2029}'
    ||| c == '\u{202f}'
    ||| c == '\u{205f}'
    ||| c == '\u{3000}'
}

/// `cur` with one trailing carriage return removed, if it has one.
pub open spec fn strip_cr(cur: Seq<char>) -> Seq<char> {
    if cur.len() > 0 && cur.last() == '\r' {
        cur.drop_last()
    } else {
        cur
    }
}

/// The lines of `cur + s`, where `cur` is a line already begun: a line ends
/// at each `'\n'` (which is dropped, together with a `'\r'` just before it),
/// and a last line without a terminator counts only when it is not empty.
pub open spec fn lines_from(cur: Seq<char>, s: Seq<char>) -> Seq<Seq<char>>
    decreases s.len(),
{
    if s.len() == 0 {
        if cur.len() == 0 {
            seq![]
        } else {
            seq![cur]
        }
    } else if s[0] == '\n' {
        seq![strip_cr(cur)] + lines_from(seq![], s.drop_first())
    } else {
        lines_from(cur.push(s[0]), s.drop_first())
    }
}

/// The lines of a text, as `str::lines` yields them.
pub open spec fn lines(s: Seq<char>) -> Seq<Seq<char>> {
    lines_from(seq![], s)
}

/// The words of `cur + s`, where `cur` is a word already begun: maximal runs
/// of characters that are not white space.
pub open spec fn words_from(cur: Seq<char>, s: Seq<char>) -> Seq<Seq<char>>
    decreases s.len(),
{
    if s.len() == 0 {
        if cur.len() == 0 {
            seq![]
        } else {
            seq![cur]
        }
    } else if is_ws(s[0]) {
        (if cur.len() == 0 {
            seq![]
        } else {
            seq![cur]
        }) + words_from(seq![], s.drop_first())
    } else {
        words_from(cur.push(s[0]), s.drop_first())
    }
}

/// The white-space separated words of a text, as `str::split_whitespace`
/// yields them.
pub open spec fn words(s: Seq<char>) -> Seq<Seq<char>> {
    words_from(seq![], s)
}

/// `needle` occurs in `hay` starting at position `i`.
pub open spec fn occurs_at(hay: Seq<char>, needle: Seq<char>, i: int) -> bool {
    0 <= i && i + needle.len() <= hay.len() && hay.subrange(i, i + needle.len()) == needle
}

/// `needle` occurs somewhere in `hay`.
pub open spec fn contains(hay: Seq<char>, needle: Seq<char>) -> bool {
    exists|i: int| occurs_at(hay, needle, i)
}

/// `hay` begins with `prefix`.
pub open spec fn starts_with(hay: Seq<char>, prefix: Seq<char>) -> bool {
    prefix.len() <= hay.len() && hay.take(prefix.len() as int) == prefix
}

/// `hay` ends with `suffix`.
pub open spec fn ends_with(hay: Seq<char>, suffix: Seq<char>) -> bool {
    suffix.len() <= hay.len() && hay.skip(hay.len() - suffix.len()) == suffix
}

/// `s` with every trailing repetition of `suffix` removed
/// (`str::trim_end_matches` with a string pattern).
pub open spec fn trim_end(s: Seq<char>, suffix: Seq<char>) -> Seq<char>
    decreases s.len(),
{
    if suffix.len() > 0 && ends_with(s, suffix) {
        trim_end(s.take(s.len() - suffix.len()), suffix)
    } else {
        s
    }
}

/// The parts joined with `sep` between neighbours (`[T]::join`).
pub open spec fn join(parts: Seq<Seq<char>>, sep: Seq<char>) -> Seq<char>
    decreases parts.len(),
{
    if parts.len() == 0 {
        seq![]
    } else if parts.len() == 1 {
        parts[0]
    } else {
        join(parts.drop_last(), sep) + sep + parts.last()
    }
}

/// `n` copies of `c`.
pub open spec fn copies(c: char, n: nat) -> Seq<char> {
    Seq::new(n, |i: int| c)
}

/// `s` padded on the right with spaces to at least `width` characters
/// (the `{:<width}` format of a string).
pub open spec fn pad_right(s: Seq<char>, width: nat) -> Seq<char> {
    if s.len() >= width {
        s
    } else {
        s + copies(' ', (width - s.len()) as nat)
    }
}

/// The decimal digit for `d < 10`.
pub open spec fn digit(d: nat) -> char {
    (('0' as nat) + d) as char
}

/// The decimal notation of `n`, without leading zeros.
pub open spec fn decimal(n: nat) -> Seq<char>
    decreases n,
{
    if n < 10 {
        seq![digit(n)]
    } else {
        decimal(n / 10).push(digit(n % 10))
    }
}

/// `name` appended to the path `base` as `PathBuf::push` does on Unix: an
/// absolute `name` replaces `base`; otherwise a `/` separates them unless
/// `base` is empty or already ends with one.
pub open spec fn path_join(base: Seq<char>, name: Seq<char>) -> Seq<char> {
    if name.len() > 0 && name[0] == '/' {
        name
    } else if base.len() == 0 || base.last() == '/' {
        base + name
    } else {
        base + "/"@ + name
    }
}

/// The last `n` elements of `ls` (all of them when there are fewer).
pub open spec fn last_n<A>(ls: Seq<A>, n: nat) -> Seq<A> {
    if ls.len() <= n {
        ls
    } else {
        ls.skip(ls.len() - n)
    }
}

/// The lines, each followed by a line break.
pub open spec fn terminated(ls: Seq<Seq<char>>) -> Seq<char>
    decreases ls.len(),
{
    if ls.len() == 0 {
        seq![]
    } else {
        terminated(ls.drop_last()) + ls.last() + "\n"@
    }
}

/// `s` without its leading white space.
pub open spec fn trim_start_ws(s: Seq<char>) -> Seq<char>
    decreases s.len(),
{
    if s.len() > 0 && is_ws(s[0]) {
        trim_start_ws(s.drop_first())
    } else {
        s
    }
}

/// `s` without its trailing white space.
pub open spec fn trim_end_ws(s: Seq<char>) -> Seq<char>
    decreases s.len(),
{
    if s.len() > 0 && is_ws(s.last()) {
        trim_end_ws(s.drop_last())
    } else {
        s
    }
}

/// `s` without white space at either end (`str::trim`).
pub open spec fn trim_ws(s: Seq<char>) -> Seq<char> {
    trim_end_ws(trim_start_ws(s))
}

/// A word: not empty, and no white space in it.
pub open spec fn is_word(w: Seq<char>) -> bool {
    w.len() > 0 && forall|k: int| 0 <= k < w.len() ==> !is_ws(#[trigger] w[k])
}

/// A text that is one line: no line break in it, and no carriage return at
/// its end.
pub open spec fn is_plain_line(l: Seq<char>) -> bool {
    !l.contains('\n') && (l.len() == 0 || l.last() != '\r')
}

// ---------------------------------------------------------------------------
// Laws of the text operations.
// ---------------------------------------------------------------------------

/// Scanning a run without line breaks only extends the pending line.
proof fn lemma_lines_from_run(cur: Seq<char>, w: Seq<char>, s: Seq<char>)
    requires
        !w.contains('\n'),
    ensures
        lines_from(cur, w + s) == lines_from(cur + w, s),
    decreases w.len(),
{
    if w.len() == 0 {
        assert(w + s == s);
        assert(cur + w == cur);
    } else {
        assert((w + s)[0] == w[0]);
        assert((w + s).drop_first() == w.drop_first() + s);
        assert(cur.push(w[0]) + w.drop_first() == cur + w);
        assert(!w.drop_first().contains('\n')) by {
            if w.drop_first().contains('\n') {
                let k = choose|k: int| 0 <= k < w.drop_first().len() && w.drop_first()[k] == '\n';
                assert(w[k + 1] == '\n');
            }
        }
        lemma_lines_from_run(cur.push(w[0]), w.drop_first(), s);
    }
}

/// The first line of a terminated list comes first.
proof fn lemma_terminated_front(ls: Seq<Seq<char>>)
    requires
        ls.len() > 0,
    ensures
        terminated(ls) == ls[0] + "\n"@ + terminated(ls.drop_first()),
    decreases ls.len(),
{
    if ls.len() == 1 {
        assert(ls.drop_last().len() == 0);
        assert(ls.drop_first().len() == 0);
        assert(terminated(ls.drop_last()) == Seq::<char>::empty());
        assert(terminated(ls.drop_first()) == Seq::<char>::empty());
        assert(Seq::<char>::empty() + ls.last() == ls[0]);
        assert(ls[0] + "\n"@ + Seq::<char>::empty() == ls[0] + "\n"@);
    } else {
        lemma_terminated_front(ls.drop_last());
        assert(ls.drop_last().drop_first() == ls.drop_first().drop_last());
        assert(ls.drop_first().last() == ls.last());
    }
}

/// Lines written each with a line break read back as the same lines: for
/// lines with no line break inside and no carriage return at the end,
/// `lines(terminated(ls)) == ls`.
pub proof fn law_terminated_lines_read_back(ls: Seq<Seq<char>>)
    requires
        forall|k: int| 0 <= k < ls.len() ==> is_plain_line(#[trigger] ls[k]),
    ensures
        lines(terminated(ls)) == ls,
    decreases ls.len(),
{
    reveal_strlit("\n");
    if ls.len() == 0 {
        assert(terminated(ls) == Seq::<char>::empty());
    } else {
        lemma_terminated_front(ls);
        let l0 = ls[0];
        let rest = terminated(ls.drop_first());
        assert(is_plain_line(l0));
        assert(ls[0] + "\n"@ + rest == l0 + (seq!['\n'] + rest));
        lemma_lines_from_run(seq![], l0, seq!['\n'] + rest);
        assert(Seq::<char>::empty() + l0 == l0);
        assert((seq!['\n'] + rest)[0] == '\n');
        assert((seq!['\n'] + rest).drop_first() == rest);
        assert(strip_cr(l0) == l0);
        assert forall|k: int| 0 <= k < ls.drop_first().len() implies is_plain_line(
            #[trigger] ls.drop_first()[k],
        ) by {
            assert(ls.drop_first()[k] == ls[k + 1]);
        }
        law_terminated_lines_read_back(ls.drop_first());
        assert(seq![l0] + ls.drop_first() == ls);
    }
}

/// Every word that the scan yields is a word.
proof fn lemma_words_from_are_words(cur: Seq<char>, s: Seq<char>)
    requires
        cur.len() == 0 || is_word(cur),
    ensures
        forall|k: int|
            0 <= k < words_from(cur, s).len() ==> is_word(#[trigger] words_from(cur, s)[k]),
    decreases s.len(),
{
    if s.len() == 0 {
        if cur.len() > 0 {
            assert(words_from(cur, s) == seq![cur]);
        }
    } else if is_ws(s[0]) {
        lemma_words_from_are_words(seq![], s.drop_first());
        let head: Seq<Seq<char>> = if cur.len() == 0 {
            seq![]
        } else {
            seq![cur]
        };
        let tail = words_from(seq![], s.drop_first());
        assert(words_from(cur, s) == head + tail);
        assert forall|k: int| 0 <= k < (head + tail).len() implies is_word(#[trigger] (head
            + tail)[k]) by {
            if k < head.len() {
                assert((head + tail)[k] == cur);
            } else {
                assert((head + tail)[k] == tail[k - head.len()]);
            }
        }
    } else {
        let next = cur.push(s[0]);
        assert forall|k: int| 0 <= k < next.len() implies !is_ws(#[trigger] next[k]) by {
            if k < cur.len() {
                assert(next[k] == cur[k]);
            }
        }
        lemma_words_from_are_words(next, s.drop_first());
        assert(words_from(cur, s) == words_from(next, s.drop_first()));
    }
}

/// The words of a text are words: none is empty and none holds white space.
pub proof fn law_words_are_words(s: Seq<char>)
    ensures
        forall|k: int| 0 <= k < words(s).len() ==> is_word(#[trigger] words(s)[k]),
{
    lemma_words_from_are_words(seq![], s);
}

/// A word is a plain line.
pub proof fn lemma_word_is_plain_line(w: Seq<char>)
    requires
        is_word(w),
    ensures
        is_plain_line(w),
{
    assert(is_ws('\n'));
    assert(is_ws('\r'));
    if w.contains('\n') {
        let k = choose|k: int| 0 <= k < w.len() && w[k] == '\n';
        assert(!is_ws(w[k]));
    }
    assert(!is_ws(w[w.len() - 1]));
}

/// Removing the trailing repetitions of a non-empty suffix leaves a text
/// that does not end with it.
pub proof fn law_trim_end_leaves_no_suffix(s: Seq<char>, suffix: Seq<char>)
    requires
        suffix.len() > 0,
    ensures
        !ends_with(trim_end(s, suffix), suffix),
    decreases s.len(),
{
    if ends_with(s, suffix) {
        law_trim_end_leaves_no_suffix(s.take(s.len() - suffix.len()), suffix);
    }
}

/// A relative name joined to a directory ends the joined path.
pub proof fn law_joined_path_ends_with_name(base: Seq<char>, name: Seq<char>)
    ensures
        ends_with(path_join(base, name), name),
{
    let r = path_join(base, name);
    if name.len() > 0 && name[0] == '/' {
        assert(r.skip(0) == r);
    } else if base.len() == 0 || base.last() == '/' {
        assert(r.skip(r.len() - name.len()) == name);
    } else {
        assert(r.skip(r.len() - name.len()) == name);
    }
}

/// Every line the scan yields is free of line breaks.
proof fn lemma_lines_from_no_break(cur: Seq<char>, s: Seq<char>)
    requires
        !cur.contains('\n'),
    ensures
        forall|k: int|
            0 <= k < lines_from(cur, s).len() ==> !(#[trigger] lines_from(cur, s)[k]).contains(
                '\n',
            ),
    decreases s.len(),
{
    if s.len() == 0 {
        if cur.len() > 0 {
            assert(lines_from(cur, s) == seq![cur]);
        }
    } else if s[0] == '\n' {
        lemma_lines_from_no_break(seq![], s.drop_first());
        let head = strip_cr(cur);
        assert(!head.contains('\n')) by {
            if head.contains('\n') {
                let k = choose|k: int| 0 <= k < head.len() && head[k] == '\n';
                assert(cur[k] == '\n');
            }
        }
        let tail = lines_from(seq![], s.drop_first());
        assert(lines_from(cur, s) == seq![head] + tail);
        assert forall|k: int| 0 <= k < (seq![head] + tail).len() implies !(#[trigger] (seq![head]
            + tail)[k]).contains('\n') by {
            if k > 0 {
                assert((seq![head] + tail)[k] == tail[k - 1]);
            }
        }
    } else {
        let next = cur.push(s[0]);
        assert(!next.contains('\n')) by {
            if next.contains('\n') {
                let k = choose|k: int| 0 <= k < next.len() && next[k] == '\n';
                if k < cur.len() {
                    assert(cur[k] == '\n');
                }
            }
        }
        lemma_lines_from_no_break(next, s.drop_first());
        assert(lines_from(cur, s) == lines_from(next, s.drop_first()));
    }
}

/// No line of a text holds a line break.
pub proof fn law_lines_have_no_break(s: Seq<char>)
    ensures
        forall|k: int| 0 <= k < lines(s).len() ==> !(#[trigger] lines(s)[k]).contains('\n'),
{
    lemma_lines_from_no_break(seq![], s);
}

/// `a` is a subsequence of `b`: `a` is `b` with some elements left out,
/// the rest kept in order.
pub open spec fn subseq<A>(a: Seq<A>, b: Seq<A>) -> bool
    decreases b.len(),
{
    if a.len() == 0 {
        true
    } else if b.len() == 0 {
        false
    } else {
        (a.last() == b.last() && subseq(a.drop_last(), b.drop_last())) || subseq(a, b.drop_last())
    }
}

/// An element added to the longer sequence keeps a subsequence one.
pub proof fn lemma_subseq_push_right<A>(a: Seq<A>, b: Seq<A>, e: A)
    requires
        subseq(a, b),
    ensures
        subseq(a, b.push(e)),
{
    assert(b.push(e).drop_last() == b);
}

/// The same element added to both keeps a subsequence one.
pub proof fn lemma_subseq_push_both<A>(a: Seq<A>, b: Seq<A>, e: A)
    requires
        subseq(a, b),
    ensures
        subseq(a.push(e), b.push(e)),
{
    assert(a.push(e).drop_last() == a);
    assert(b.push(e).drop_last() == b);
}

/// A subsequence is no longer than the sequence.
pub proof fn lemma_subseq_len<A>(a: Seq<A>, b: Seq<A>)
    requires
        subseq(a, b),
    ensures
        a.len() <= b.len(),
    decreases b.len(),
{
    if a.len() > 0 {
        if a.last() == b.last() && subseq(a.drop_last(), b.drop_last()) {
            lemma_subseq_len(a.drop_last(), b.drop_last());
        } else {
            lemma_subseq_len(a, b.drop_last());
        }
    }
}

/// Keeping the same elements of a sequence and of a subsequence of it gives
/// a subsequence again.
pub proof fn law_filter_keeps_subseq<A>(a: Seq<A>, b: Seq<A>, p: spec_fn(A) -> bool)
    requires
        subseq(a, b),
    ensures
        subseq(a.filter(p), b.filter(p)),
    decreases b.len(),
{
    reveal_with_fuel(Seq::filter, 1);
    if a.len() == 0 {
        assert(a.filter(p).len() == 0);
    } else if a.last() == b.last() && subseq(a.drop_last(), b.drop_last()) {
        law_filter_keeps_subseq(a.drop_last(), b.drop_last(), p);
        if p(a.last()) {
            lemma_subseq_push_both(a.drop_last().filter(p), b.drop_last().filter(p), a.last());
        }
    } else {
        law_filter_keeps_subseq(a, b.drop_last(), p);
        if p(b.last()) {
            lemma_subseq_push_right(a.filter(p), b.drop_last().filter(p), b.last());
        }
    }
}

/// Keeping the elements that meet a condition gives a subsequence of the
/// elements that meet a weaker condition.
pub proof fn law_filter_weaker<A>(s: Seq<A>, p: spec_fn(A) -> bool, q: spec_fn(A) -> bool)
    requires
        forall|x: A| #[trigger] p(x) ==> q(x),
    ensures
        subseq(s.filter(p), s.filter(q)),
    decreases s.len(),
{
    reveal_with_fuel(Seq::filter, 1);
    if s.len() == 0 {
        assert(s.filter(p).len() == 0);
    } else {
        law_filter_weaker(s.drop_last(), p, q);
        let x = s.last();
        if p(x) {
            lemma_subseq_push_both(s.drop_last().filter(p), s.drop_last().filter(q), x);
        } else if q(x) {
            lemma_subseq_push_right(s.drop_last().filter(p), s.drop_last().filter(q), x);
        }
    }
}

/// An element is kept by a filter exactly when the sequence holds it and it
/// meets the condition.
pub proof fn law_filter_membership<A>(s: Seq<A>, p: spec_fn(A) -> bool, e: A)
    ensures
        s.filter(p).contains(e) <==> (s.contains(e) && p(e)),
{
    if s.filter(p).contains(e) {
        s.lemma_filter_contains_rev(p, e);
        let j = choose|j: int| 0 <= j < s.filter(p).len() && s.filter(p)[j] == e;
        s.lemma_filter_pred(p, j);
    }
    if s.contains(e) && p(e) {
        let j = choose|j: int| 0 <= j < s.len() && s[j] == e;
        s.lemma_filter_contains(p, j);
    }
}

/// An element for which `f` gives `Some(b)` leaves `b` in the filter-map of
/// any sequence that holds it.
pub proof fn law_filter_map_keeps<A, B>(s: Seq<A>, f: spec_fn(A) -> Option<B>, t: A)
    requires
        s.contains(t),
        f(t) is Some,
    ensures
        s.filter_map(f).contains(f(t)->Some_0),
    decreases s.len(),
{
    let b = f(t)->Some_0;
    let rest = s.drop_last();
    if s.last() == t {
        let r = s.filter_map(f);
        assert(r == rest.filter_map(f) + seq![b]);
        assert(r[r.len() - 1] == b);
    } else {
        let k = choose|k: int| 0 <= k < s.len() && s[k] == t;
        assert(k < s.len() - 1);
        assert(rest[k] == t);
        law_filter_map_keeps(rest, f, t);
        let j = choose|j: int| 0 <= j < rest.filter_map(f).len() && rest.filter_map(f)[j] == b;
        match f(s.last()) {
            Option::Some(x) => {
                assert(s.filter_map(f) == rest.filter_map(f) + seq![x]);
                assert(s.filter_map(f)[j] == b);
            },
            Option::None => {},
        }
    }
}

/// Two sequences joined hold exactly what either of them holds.
pub proof fn lemma_concat_contains<A>(a: Seq<A>, b: Seq<A>, x: A)
    ensures
        (a + b).contains(x) <==> (a.contains(x) || b.contains(x)),
{
    if a.contains(x) {
        let i = choose|i: int| 0 <= i < a.len() && a[i] == x;
        assert((a + b)[i] == x);
    }
    if b.contains(x) {
        let i = choose|i: int| 0 <= i < b.len() && b[i] == x;
        assert((a + b)[a.len() + i] == x);
    }
    if (a + b).contains(x) {
        let i = choose|i: int| 0 <= i < (a + b).len() && (a + b)[i] == x;
        if i < a.len() {
            assert(a[i] == x);
        } else {
            assert(b[i - a.len()] == x);
        }
    }
}

/// One element, or none, chosen by a switch: it holds `y` exactly when the
/// switch is on.
pub open spec fn chosen<A>(on: bool, y: A) -> Seq<A> {
    if on {
        seq![y]
    } else {
        Seq::empty()
    }
}

/// What a switch chooses holds an element exactly when the switch is on and
/// the element is the chosen one.
pub proof fn lemma_chosen_contains<A>(on: bool, y: A, x: A)
    ensures
        chosen(on, y).contains(x) <==> (on && x == y),
        chosen(on, y).len() == if on { 1int } else { 0 },
{
    if on {
        assert(chosen(on, y)[0] == y);
    }
}

/// Text put around a text keeps every occurrence in it.
pub proof fn lemma_contains_grow(pre: Seq<char>, hay: Seq<char>, post: Seq<char>, needle: Seq<char>)
    requires
        contains(hay, needle),
    ensures
        contains(pre + hay + post, needle),
{
    let i = choose|i: int| occurs_at(hay, needle, i);
    let big = pre + hay + post;
    assert(big.subrange(pre.len() + i, pre.len() + i + needle.len()) =~= hay.subrange(
        i,
        i + needle.len(),
    ));
    assert(occurs_at(big, needle, pre.len() + i));
}

/// Every text occurs in itself.
pub proof fn lemma_contains_self(s: Seq<char>)
    ensures
        contains(s, s),
{
    assert(s.subrange(0, s.len() as int) =~= s);
    assert(occurs_at(s, s, 0));
}

/// Each of the parts occurs in their join, whatever the separator.
pub proof fn law_join_contains_parts(parts: Seq<Seq<char>>, sep: Seq<char>, k: int)
    requires
        0 <= k < parts.len(),
    ensures
        contains(join(parts, sep), parts[k]),
    decreases parts.len(),
{
    let e = Seq::<char>::empty();
    if parts.len() == 1 {
        lemma_contains_self(parts[0]);
    } else if k == parts.len() - 1 {
        lemma_contains_self(parts.last());
        lemma_contains_grow(join(parts.drop_last(), sep) + sep, parts.last(), e, parts[k]);
        assert(join(parts.drop_last(), sep) + sep + parts.last() + e =~= join(parts, sep));
    } else {
        law_join_contains_parts(parts.drop_last(), sep, k);
        assert(parts.drop_last()[k] == parts[k]);
        lemma_contains_grow(e, join(parts.drop_last(), sep), sep + parts.last(), parts[k]);
        assert(e + join(parts.drop_last(), sep) + (sep + parts.last()) =~= join(parts, sep));
    }
}

/// A padded text holds the text it was padded from.
pub proof fn lemma_pad_right_contains(s: Seq<char>, width: nat)
    ensures
        contains(pad_right(s, width), s),
        starts_with(pad_right(s, width), s),
{
    lemma_contains_self(s);
    if s.len() < width {
        lemma_contains_grow(Seq::<char>::empty(), s, copies(' ', (width - s.len()) as nat), s);
        assert(Seq::<char>::empty() + s + copies(' ', (width - s.len()) as nat) =~= pad_right(
            s,
            width,
        ));
        assert(pad_right(s, width).take(s.len() as int) =~= s);
    } else {
        assert(s.take(s.len() as int) =~= s);
    }
}

// ---------------------------------------------------------------------------
// Trusted standard-library calls without a vstd specification.
// ---------------------------------------------------------------------------

/// Appends one character to a string.
/// Trusted: `String::push` adds `c` at the end of the string.
#[verifier::external_body]
pub(crate) fn push_char(s: &mut String, c: char)
    ensures
        final(s)@ == old(s)@.push(c),
{
    s.push(c);
}

// ---------------------------------------------------------------------------
// Executable text operations.
// ---------------------------------------------------------------------------

/// The characters of `s`, in order.
pub fn chars_of(s: &str) -> (v: Vec<char>)
    ensures
        v@ == s@,
{
    let mut v: Vec<char> = Vec::new();
    for c in it: s.chars()
        invariant
            v@ == it.seq().take(it.index()),
            it.seq() == s@,
    {
        v.push(c);
    }
    v
}

/// The string made of the characters `v[from..to]`.
pub fn string_of(v: &[char], from: usize, to: usize) -> (s: String)
    requires
        from <= to <= v@.len(),
    ensures
        s@ == v@.subrange(from as int, to as int),
{
    let mut s = String::new();
    let mut i = from;
    while i < to
        invariant
            from <= i <= to <= v@.len(),
            s@ == v@.subrange(from as int, i as int),
        decreases to - i,
    {
        push_char(&mut s, v[i]);
        i = i + 1;
        assert(s@ == v@.subrange(from as int, i as int));
    }
    s
}

/// Whether `c` is white space (`char::is_whitespace`).
pub fn is_whitespace(c: char) -> (b: bool)
    ensures
        b == is_ws(c),
{
    ('\u{9}' <= c && c <= '\u{d}') || c == ' ' || c == '\u{85}' || c == '\u{a0}' || c == '\u{1680}'
        || ('\u{2000}' <= c && c <= '\u{200a}') || c == '\u{2028}' || c == '\u{2029}' || c
        == '\u{202f}' || c == '\u{205f}' || c == '\u{3000}'
}

/// The lines of `s` (`str::lines`).
pub fn lines_of(s: &str) -> (r: Vec<String>)
    ensures
        r.deep_view() == lines(s@),
{
    let v = chars_of(s);
    let mut acc: Vec<String> = Vec::new();
    let mut start: usize = 0;
    let mut i: usize = 0;
    assert(v@.skip(0) == v@);
    assert(v@.subrange(0, 0) == Seq::<char>::empty());
    while i < v.len()
        invariant
            start <= i <= v@.len(),
            v@ == s@,
            acc.deep_view() + lines_from(v@.subrange(start as int, i as int), v@.skip(i as int))
                == lines(s@),
        decreases v@.len() - i,
    {
        let ghost cur = v@.subrange(start as int, i as int);
        let ghost rest = v@.skip(i as int);
        assert(rest.drop_first() == v@.skip(i + 1));
        if v[i] == '\n' {
            let end = if i > start && v[i - 1] == '\r' {
                i - 1
            } else {
                i
            };
            let line = string_of(&v, start, end);
            assert(line@ == strip_cr(cur));
            let ghost before = acc.deep_view();
            acc.push(line);
            assert(acc.deep_view() == before.push(line@));
            assert(v@.subrange((i + 1) as int, (i + 1) as int) == Seq::<char>::empty());
            start = i + 1;
        } else {
            assert(cur.push(v@[i as int]) == v@.subrange(start as int, i + 1));
        }
        i = i + 1;
    }
    if start < v.len() {
        let line = string_of(&v, start, v.len());
        let ghost before = acc.deep_view();
        acc.push(line);
        assert(acc.deep_view() == before.push(line@));
    }
    acc
}

/// The white-space separated words of `s` (`str::split_whitespace`).
pub fn words_of(s: &str) -> (r: Vec<String>)
    ensures
        r.deep_view() == words(s@),
{
    let v = chars_of(s);
    let mut acc: Vec<String> = Vec::new();
    let mut start: usize = 0;
    let mut i: usize = 0;
    assert(v@.skip(0) == v@);
    assert(v@.subrange(0, 0) == Seq::<char>::empty());
    while i < v.len()
        invariant
            start <= i <= v@.len(),
            v@ == s@,
            acc.deep_view() + words_from(v@.subrange(start as int, i as int), v@.skip(i as int))
                == words(s@),
        decreases v@.len() - i,
    {
        let ghost cur = v@.subrange(start as int, i as int);
        let ghost rest = v@.skip(i as int);
        assert(rest.drop_first() == v@.skip(i + 1));
        if is_whitespace(v[i]) {
            if start < i {
                let word = string_of(&v, start, i);
                let ghost before = acc.deep_view();
                acc.push(word);
                assert(acc.deep_view() == before.push(word@));
            } else {
                assert(cur.len() == 0);
            }
            assert(v@.subrange((i + 1) as int, (i + 1) as int) == Seq::<char>::empty());
            start = i + 1;
        } else {
            assert(cur.push(v@[i as int]) == v@.subrange(start as int, i + 1));
        }
        i = i + 1;
    }
    if start < v.len() {
        let word = string_of(&v, start, v.len());
        let ghost before = acc.deep_view();
        acc.push(word);
        assert(acc.deep_view() == before.push(word@));
    }
    acc
}

/// Whether `needle` occurs in `hay` at position `i`.
fn occurs_at_exec(hay: &[char], needle: &[char], i: usize) -> (b: bool)
    requires
        i + needle@.len() <= hay@.len(),
    ensures
        b == occurs_at(hay@, needle@, i as int),
{
    let hl = hay.len();
    let mut j: usize = 0;
    while j < needle.len()
        invariant
            hl == hay@.len(),
            j <= needle@.len(),
            i + needle@.len() <= hay@.len(),
            forall|k: int| 0 <= k < j ==> hay@[i + k] == needle@[k],
        decreases needle@.len() - j,
    {
        if hay[i + j] != needle[j] {
            assert(hay@.subrange(i as int, i + needle@.len())[j as int] != needle@[j as int]);
            return false;
        }
        j = j + 1;
    }
    assert(hay@.subrange(i as int, i + needle@.len()) =~= needle@);
    true
}

/// Whether `needle` occurs in `hay`.
pub fn contains_chars(hay: &[char], needle: &[char]) -> (b: bool)
    ensures
        b == contains(hay@, needle@),
{
    if needle.len() == 0 {
        assert(hay@.subrange(0, 0) =~= needle@);
        assert(occurs_at(hay@, needle@, 0));
        return true;
    }
    if needle.len() > hay.len() {
        assert forall|k: int| !occurs_at(hay@, needle@, k) by {}
        return false;
    }
    let mut i: usize = 0;
    while needle.len() <= hay.len() - i
        invariant
            i <= hay@.len(),
            1 <= needle@.len() <= hay@.len(),
            forall|k: int| 0 <= k < i ==> !occurs_at(hay@, needle@, k),
        decreases hay@.len() - i,
    {
        if occurs_at_exec(hay, needle, i) {
            return true;
        }
        i = i + 1;
    }
    assert forall|k: int| !occurs_at(hay@, needle@, k) by {
        if 0 <= k < i {
        }
    }
    false
}

/// Whether `needle` occurs in `hay` (`str::contains`).
pub fn str_contains(hay: &str, needle: &str) -> (b: bool)
    ensures
        b == contains(hay@, needle@),
{
    let h = chars_of(hay);
    let n = chars_of(needle);
    contains_chars(h.as_slice(), n.as_slice())
}

/// Whether `hay` begins with `prefix` (`str::starts_with`).
pub fn str_starts_with(hay: &str, prefix: &str) -> (b: bool)
    ensures
        b == starts_with(hay@, prefix@),
{
    let h = chars_of(hay);
    let p = chars_of(prefix);
    if p.len() > h.len() {
        return false;
    }
    let b = occurs_at_exec(h.as_slice(), p.as_slice(), 0);
    assert(h@.subrange(0, p@.len() as int) == h@.take(p@.len() as int));
    b
}

/// `s` with every trailing repetition of `suffix` removed
/// (`str::trim_end_matches`).
pub fn trim_end_matches(s: &str, suffix: &str) -> (r: String)
    ensures
        r@ == trim_end(s@, suffix@),
{
    let v = chars_of(s);
    let p = chars_of(suffix);
    let mut end: usize = v.len();
    assert(v@.take(v@.len() as int) == v@);
    while p.len() > 0 && end >= p.len() && occurs_at_exec(v.as_slice(), p.as_slice(), end - p.len())
        invariant
            end <= v@.len(),
            v@ == s@,
            p@ == suffix@,
            trim_end(s@, suffix@) == trim_end(v@.take(end as int), suffix@),
        decreases end,
    {
        let ghost t = v@.take(end as int);
        assert(t.skip(t.len() - p@.len()) == v@.subrange(end - p@.len(), end as int));
        assert(t.take(t.len() - p@.len()) == v@.take(end - p@.len()));
        end = end - p.len();
    }
    proof {
        let t = v@.take(end as int);
        if p@.len() > 0 && end >= p@.len() {
            assert(t.skip(t.len() - p@.len()) == v@.subrange(end - p@.len(), end as int));
        }
    }
    let r = string_of(v.as_slice(), 0, end);
    assert(v@.subrange(0, end as int) == v@.take(end as int));
    r
}

/// The parts joined with `sep` between neighbours (`[String]::join`).
pub fn join_strings(parts: &Vec<String>, sep: &str) -> (r: String)
    ensures
        r@ == join(parts.deep_view(), sep@),
{
    let mut r = String::new();
    let ghost all = parts.deep_view();
    let mut i: usize = 0;
    assert(all.take(0) == Seq::<Seq<char>>::empty());
    while i < parts.len()
        invariant
            i <= parts@.len(),
            all == parts.deep_view(),
            all.len() == parts@.len(),
            r@ == join(all.take(i as int), sep@),
        decreases parts@.len() - i,
    {
        assert(all[i as int] == parts@[i as int]@);
        if i > 0 {
            r.append(sep);
        }
        r.append(parts[i].as_str());
        assert(all.take(i + 1).drop_last() == all.take(i as int));
        i = i + 1;
    }
    assert(all.take(parts@.len() as int) == all);
    r
}

/// `n` copies of `c`.
pub fn repeat_char(c: char, n: usize) -> (r: String)
    ensures
        r@ == copies(c, n as nat),
{
    let mut r = String::new();
    let mut i: usize = 0;
    while i < n
        invariant
            i <= n,
            r@ == copies(c, i as nat),
        decreases n - i,
    {
        push_char(&mut r, c);
        i = i + 1;
        assert(r@ == copies(c, i as nat));
    }
    r
}

/// `s` padded on the right with spaces to `width` characters
/// (the `{:<width}` format).
pub fn pad_right_str(s: &str, width: usize) -> (r: String)
    ensures
        r@ == pad_right(s@, width as nat),
{
    let n = s.unicode_len();
    let mut r = String::new();
    r.append(s);
    if n < width {
        let spaces = repeat_char(' ', width - n);
        r.append(spaces.as_str());
    }
    r
}

/// The decimal notation of `n` (`u64::to_string`).
pub fn decimal_string(n: u64) -> (r: String)
    ensures
        r@ == decimal(n as nat),
{
    let mut rev: Vec<char> = Vec::new();
    let mut m = n;
    let ghost mut tail: Seq<char> = Seq::empty();
    while m >= 10
        invariant
            decimal(n as nat) == decimal(m as nat) + tail,
            rev@ == tail.reverse(),
        decreases m,
    {
        let ch = char_for_digit((m % 10) as u32);
        proof {
            assert(decimal(m as nat) == decimal((m / 10) as nat).push(digit((m % 10) as nat)));
            assert(decimal(m as nat) + tail == decimal((m / 10) as nat) + (seq![ch] + tail));
            assert((seq![ch] + tail).reverse() == tail.reverse().push(ch));
        }
        rev.push(ch);
        proof {
            tail = seq![ch] + tail;
        }
        m = m / 10;
    }
    let ch = char_for_digit(m as u32);
    proof {
        assert(decimal(m as nat) == seq![digit(m as nat)]);
        assert((seq![ch] + tail).reverse() == tail.reverse().push(ch));
    }
    rev.push(ch);
    proof {
        tail = seq![ch] + tail;
    }
    let mut r = String::new();
    let mut i = rev.len();
    assert(tail == decimal(n as nat));
    while i > 0
        invariant
            i <= rev@.len(),
            rev@ == tail.reverse(),
            r@ == tail.take(rev@.len() - i),
        decreases i,
    {
        i = i - 1;
        push_char(&mut r, rev[i]);
        assert(tail.take(rev@.len() - i) == tail.take(rev@.len() - i - 1).push(rev@[i as int]));
    }
    assert(tail.take(rev@.len() as int) == tail);
    r
}

/// The character of a decimal digit.
fn char_for_digit(d: u32) -> (c: char)
    requires
        d < 10,
    ensures
        c == digit(d as nat),
{
    if d == 0 { '0' }
    else if d == 1 { '1' }
    else if d == 2 { '2' }
    else if d == 3 { '3' }
    else if d == 4 { '4' }
    else if d == 5 { '5' }
    else if d == 6 { '6' }
    else if d == 7 { '7' }
    else if d == 8 { '8' }
    else { '9' }
}

/// An owned copy of `s`.
pub fn owned(s: &str) -> (r: String)
    ensures
        r@ == s@,
{
    let mut r = String::new();
    r.append(s);
    r
}

/// Whether two texts are equal.
pub fn same_text(a: &str, b: &str) -> (r: bool)
    ensures
        r == (a@ == b@),
{
    let x = owned(a);
    let y = owned(b);
    x == y
}

/// Whether `item` is one of `list`.
pub fn is_listed(list: &Vec<String>, item: &str) -> (r: bool)
    ensures
        r == list.deep_view().contains(item@),
{
    let ghost all = list.deep_view();
    let mut i: usize = 0;
    while i < list.len()
        invariant
            i <= list@.len(),
            all == list.deep_view(),
            forall|k: int| 0 <= k < i ==> all[k] != item@,
        decreases list@.len() - i,
    {
        if same_text(list[i].as_str(), item) {
            assert(all[i as int] == item@);
            return true;
        }
        i = i + 1;
    }
    false
}

/// `name` appended to the path `base` (`PathBuf::push`).
pub fn join_path(base: &str, name: &str) -> (r: String)
    ensures
        r@ == path_join(base@, name@),
{
    let nl = name.unicode_len();
    if nl > 0 && name.get_char(0) == '/' {
        return owned(name);
    }
    let bl = base.unicode_len();
    let mut r = owned(base);
    if bl > 0 && base.get_char(bl - 1) != '/' {
        r.append("/");
    }
    r.append(name);
    r
}

/// `s` without white space at either end (`str::trim`).
pub fn trim(s: &str) -> (r: String)
    ensures
        r@ == trim_ws(s@),
{
    let v = chars_of(s);
    let mut a: usize = 0;
    assert(v@.skip(0) == v@);
    while a < v.len() && is_whitespace(v[a])
        invariant
            a <= v@.len(),
            v@ == s@,
            trim_start_ws(s@) == trim_start_ws(v@.skip(a as int)),
        decreases v@.len() - a,
    {
        assert(v@.skip(a as int).drop_first() == v@.skip(a + 1));
        a = a + 1;
    }
    let ghost front = v@.skip(a as int);
    assert(trim_start_ws(s@) == front);
    let mut b: usize = v.len();
    assert(front.take(front.len() as int) == front);
    while b > a && is_whitespace(v[b - 1])
        invariant
            a <= b <= v@.len(),
            front == v@.skip(a as int),
            trim_end_ws(front) == trim_end_ws(front.take(b - a)),
        decreases b,
    {
        assert(front.take(b - a).drop_last() == front.take(b - 1 - a));
        assert(front.take(b - a).last() == v@[b - 1]);
        b = b - 1;
    }
    assert(front.take(b - a) == v@.subrange(a as int, b as int));
    string_of(v.as_slice(), a, b)
}

} // verus!

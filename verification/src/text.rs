use vstd::prelude::*;

verus! {

/// Appends one character to a string.
/// Trusted: `String::push`, which std documents as appending the character
/// to the end of the string.
#[verifier::external_body]
pub(crate) fn push_char(s: &mut String, c: char)
    ensures
        final(s)@ == old(s)@.push(c),
{
    s.push(c);
}


/// Compares two strings character by character.
pub fn str_eq(a: &str, b: &str) -> (r: bool)
    ensures
        r == (a@ == b@),
{
    let n = a.unicode_len();
    if n != b.unicode_len() {
        return false;
    }
    let mut i: usize = 0;
    while i < n
        invariant
            i <= n,
            n == a@.len(),
            n == b@.len(),
            forall|k: int| 0 <= k < i ==> a@[k] == b@[k],
        decreases n - i,
    {
        if a.get_char(i) != b.get_char(i) {
            return false;
        }
        i = i + 1;
    }
    assert(a@ =~= b@);
    true
}

/// Whether `c` separates path components: `/` or `\`.
pub open spec fn is_path_separator(c: char) -> bool {
    c == '/' || c == '\\'
}

/// `s` with every `/` and `\` taken out, the other characters kept in order.
pub open spec fn without_separators(s: Seq<char>) -> Seq<char>
    decreases s.len(),
{
    if s.len() == 0 {
        s
    } else {
        let r = without_separators(s.drop_last());
        if is_path_separator(s.last()) {
            r
        } else {
            r.push(s.last())
        }
    }
}

/// Takes every `/` and `\` out of `s`, as `s.replace("/", "").replace("\\", "")`.
pub fn remove_path_separators(s: &str) -> (r: String)
    ensures
        r@ == without_separators(s@),
{
    let n = s.unicode_len();
    let mut out = String::new();
    let mut i: usize = 0;
    assert(s@.take(0) =~= Seq::<char>::empty());
    while i < n
        invariant
            i <= n,
            n == s@.len(),
            out@ == without_separators(s@.take(i as int)),
        decreases n - i,
    {
        let c = s.get_char(i);
        assert(s@.take(i + 1).drop_last() =~= s@.take(i as int));
        if c != '/' && c != '\\' {
            push_char(&mut out, c);
        }
        i = i + 1;
    }
    assert(s@.take(n as int) =~= s@);
    out
}

/// Law: after the separators are taken out, none is left.
pub proof fn without_separators_has_none(s: Seq<char>)
    ensures
        forall|i: int|
            0 <= i < without_separators(s).len() ==> !is_path_separator(
                #[trigger] without_separators(s)[i],
            ),
    decreases s.len(),
{
    if s.len() > 0 {
        let r = without_separators(s.drop_last());
        without_separators_has_none(s.drop_last());
        if !is_path_separator(s.last()) {
            assert forall|i: int| 0 <= i < r.push(s.last()).len() implies !is_path_separator(
                #[trigger] r.push(s.last())[i],
            ) by {
                if i < r.len() {
                    assert(r.push(s.last())[i] == r[i]);
                }
            }
        }
    }
}

/// Law: a text without separators is left as it is.
pub proof fn without_separators_keeps_clean_text(s: Seq<char>)
    requires
        forall|i: int| 0 <= i < s.len() ==> !is_path_separator(#[trigger] s[i]),
    ensures
        without_separators(s) == s,
    decreases s.len(),
{
    if s.len() > 0 {
        let d = s.drop_last();
        assert forall|i: int| 0 <= i < d.len() implies !is_path_separator(#[trigger] d[i]) by {
            assert(d[i] == s[i]);
        }
        without_separators_keeps_clean_text(d);
        assert(!is_path_separator(s[s.len() - 1]));
        assert(d.push(s.last()) =~= s);
    }
}

/// Law: taking the separators out twice is taking them out once.
pub proof fn without_separators_idempotent(s: Seq<char>)
    ensures
        without_separators(without_separators(s)) == without_separators(s),
{
    without_separators_has_none(s);
    without_separators_keeps_clean_text(without_separators(s));
}


/// `s` with every occurrence of `pat` replaced by `rep`, scanning from the
/// left and never letting two occurrences overlap, as `str::replace` does
/// for a pattern that is not empty.
pub open spec fn replace_all(s: Seq<char>, pat: Seq<char>, rep: Seq<char>) -> Seq<char>
    decreases s.len(),
{
    if pat.len() == 0 || s.len() < pat.len() {
        s
    } else if s.take(pat.len() as int) == pat {
        rep + replace_all(s.skip(pat.len() as int), pat, rep)
    } else {
        seq![s[0]] + replace_all(s.skip(1), pat, rep)
    }
}

/// Whether `pat` occurs in `s` starting at `i`.
fn occurs_at(s: &str, n: usize, i: usize, pat: &str, m: usize) -> (r: bool)
    requires
        n == s@.len(),
        m == pat@.len(),
        i + m <= n,
    ensures
        r == (s@.subrange(i as int, i + m) == pat@),
{
    let mut k: usize = 0;
    while k < m
        invariant
            k <= m,
            n == s@.len(),
            m == pat@.len(),
            i + m <= n,
            forall|j: int| 0 <= j < k ==> s@[i + j] == pat@[j],
        decreases m - k,
    {
        if s.get_char(i + k) != pat.get_char(k) {
            assert(s@.subrange(i as int, i + m)[k as int] != pat@[k as int]);
            return false;
        }
        k = k + 1;
    }
    assert(s@.subrange(i as int, i + m) =~= pat@);
    true
}

/// Replaces every occurrence of `from` in `s` by `to`, as `s.replace(from, to)`.
pub fn replace_all_str(s: &str, from: &str, to: &str) -> (r: String)
    requires
        from@.len() > 0,
    ensures
        r@ == replace_all(s@, from@, to@),
{
    let n = s.unicode_len();
    let m = from.unicode_len();
    let mut out = String::new();
    let mut i: usize = 0;
    assert(s@.skip(0) =~= s@);
    while i < n
        invariant
            i <= n,
            n == s@.len(),
            m == from@.len(),
            m > 0,
            out@ + replace_all(s@.skip(i as int), from@, to@) == replace_all(s@, from@, to@),
        decreases n - i,
    {
        let ghost rest = s@.skip(i as int);
        if m <= n - i && occurs_at(s, n, i, from, m) {
            assert(rest.take(m as int) =~= s@.subrange(i as int, i + m));
            assert(rest.skip(m as int) =~= s@.skip(i + m));
            out.append(to);
            assert(out@ + replace_all(s@.skip(i + m), from@, to@) =~= replace_all(s@, from@, to@));
            i = i + m;
        } else {
            let c = s.get_char(i);
            assert(rest.skip(1) =~= s@.skip(i + 1));
            if m <= n - i {
                assert(rest.take(m as int) =~= s@.subrange(i as int, i + m));
            } else {
                assert(replace_all(rest.skip(1), from@, to@) == rest.skip(1));
                assert(seq![rest[0]] + rest.skip(1) =~= rest);
            }
            let ghost before = out@;
            push_char(&mut out, c);
            assert(out@ =~= before + seq![rest[0]]);
            assert(out@ + replace_all(s@.skip(i + 1), from@, to@) =~= before + (seq![rest[0]]
                + replace_all(rest.skip(1), from@, to@)));
            i = i + 1;
        }
    }
    assert(s@.skip(n as int) =~= Seq::<char>::empty());
    assert(out@ + Seq::<char>::empty() =~= out@);
    out
}

/// Law: replacing a pattern by one of the same length keeps the length.
pub proof fn replace_all_keeps_length(s: Seq<char>, pat: Seq<char>, rep: Seq<char>)
    requires
        pat.len() == rep.len(),
    ensures
        replace_all(s, pat, rep).len() == s.len(),
    decreases s.len(),
{
    if pat.len() == 0 || s.len() < pat.len() {
    } else if s.take(pat.len() as int) == pat {
        replace_all_keeps_length(s.skip(pat.len() as int), pat, rep);
    } else {
        replace_all_keeps_length(s.skip(1), pat, rep);
    }
}

/// Whether `pat` occurs anywhere in `s`.
pub open spec fn occurs_in(s: Seq<char>, pat: Seq<char>) -> bool {
    exists|i: int| 0 <= i && i + pat.len() <= s.len() && #[trigger] s.subrange(i, i + pat.len()) == pat
}

/// Law: a text in which the pattern does not occur is left as it is.
pub proof fn replace_all_without_occurrence(s: Seq<char>, pat: Seq<char>, rep: Seq<char>)
    requires
        !occurs_in(s, pat),
    ensures
        replace_all(s, pat, rep) == s,
    decreases s.len(),
{
    if pat.len() == 0 || s.len() < pat.len() {
    } else {
        assert(s.subrange(0int, 0int + pat.len()) != pat);
        assert(s.subrange(0, pat.len() as int) =~= s.take(pat.len() as int));
        let t = s.skip(1);
        assert forall|i: int| 0 <= i && i + pat.len() <= t.len() implies #[trigger] t.subrange(i, i + pat.len()) != pat by {
            assert(t.subrange(i, i + pat.len()) =~= s.subrange(i + 1, i + 1 + pat.len()));
        }
        replace_all_without_occurrence(t, pat, rep);
        assert(seq![s[0]] + t =~= s);
    }
}


/// The index of the first `\n` in `s`, or its length where there is none.
pub open spec fn line_end(s: Seq<char>) -> nat
    decreases s.len(),
{
    if s.len() == 0 {
        0
    } else if s[0] == '\n' {
        0
    } else {
        1 + line_end(s.drop_first())
    }
}

/// Where the first line of `s` ends.
pub proof fn lemma_line_end_bound(s: Seq<char>)
    ensures
        line_end(s) <= s.len(),
        line_end(s) < s.len() ==> s[line_end(s) as int] == '\n',
        forall|k: int| 0 <= k < line_end(s) ==> s[k] != '\n',
    decreases s.len(),
{
    if s.len() > 0 && s[0] != '\n' {
        lemma_line_end_bound(s.drop_first());
        assert forall|k: int| 0 <= k < line_end(s) implies s[k] != '\n' by {
            if k > 0 {
                assert(s[k] == s.drop_first()[k - 1]);
            }
        }
    }
}

proof fn lemma_line_end_is(s: Seq<char>, e: int)
    requires
        0 <= e <= s.len(),
        e < s.len() ==> s[e] == '\n',
        forall|k: int| 0 <= k < e ==> s[k] != '\n',
    ensures
        line_end(s) == e,
{
    lemma_line_end_bound(s);
    if line_end(s) < e {
        assert(s[line_end(s) as int] == '\n');
    }
    if e < line_end(s) {
        assert(s[e] != '\n');
    }
}

/// `t` without one `\r` at its end, where it has one.
pub open spec fn strip_cr(t: Seq<char>) -> Seq<char> {
    if t.len() > 0 && t.last() == '\r' {
        t.drop_last()
    } else {
        t
    }
}

/// The lines of `s` as `str::lines` gives them: split after each `\n`; a
/// line that ended with `\r\n` loses both; the last line needs no `\n`; an
/// empty text has no lines.
pub open spec fn lines(s: Seq<char>) -> Seq<Seq<char>>
    decreases s.len(),
{
    if s.len() == 0 {
        Seq::empty()
    } else {
        let e = line_end(s);
        if e >= s.len() {
            seq![s]
        } else {
            proof {
                lemma_line_end_bound(s);
            }
            seq![strip_cr(s.take(e as int))] + lines(s.skip(e as int + 1))
        }
    }
}

/// Cuts `s` into its lines, as `s.lines()` does.
pub fn split_lines(s: &str) -> (r: Vec<String>)
    ensures
        r@.len() == lines(s@).len(),
        forall|k: int| 0 <= k < r@.len() ==> #[trigger] r@[k]@ == lines(s@)[k],
{
    let n = s.unicode_len();
    let mut out: Vec<String> = Vec::new();
    let ghost done: Seq<Seq<char>> = Seq::empty();
    let mut start: usize = 0;
    let mut i: usize = 0;
    assert(s@.skip(0) =~= s@);
    while i < n
        invariant
            start <= i <= n,
            n == s@.len(),
            lines(s@) == done + lines(s@.skip(start as int)),
            out@.len() == done.len(),
            forall|k: int| 0 <= k < out@.len() ==> #[trigger] out@[k]@ == done[k],
            forall|k: int| start <= k < i ==> s@[k] != '\n',
        decreases n - i,
    {
        let c = s.get_char(i);
        if c == '\n' {
            let ghost rest = s@.skip(start as int);
            proof {
                lemma_line_end_is(rest, i - start);
            }
            let mut end = i;
            if start < i && s.get_char(i - 1) == '\r' {
                end = i - 1;
            }
            let line = s.substring_char(start, end);
            assert(line@ == strip_cr(rest.take(i - start))) by {
                assert(rest.take(i - start) =~= s@.subrange(start as int, i as int));
                if start < i && s@[i - 1] == '\r' {
                    assert(s@.subrange(start as int, i as int).drop_last() =~= s@.subrange(
                        start as int,
                        i - 1,
                    ));
                }
            }
            assert(rest.skip(i - start + 1) =~= s@.skip(i + 1));
            out.push(line.to_owned());
            proof {
                done = done.push(line@);
                assert(lines(s@) =~= done + lines(s@.skip(i + 1)));
            }
            start = i + 1;
        }
        i = i + 1;
    }
    if start < n {
        let ghost rest = s@.skip(start as int);
        proof {
            lemma_line_end_is(rest, n - start);
        }
        let line = s.substring_char(start, n);
        assert(line@ =~= rest);
        out.push(line.to_owned());
        proof {
            done = done.push(line@);
            assert(lines(s@) =~= done);
        }
    } else {
        assert(s@.skip(start as int) =~= Seq::<char>::empty());
        assert(lines(s@) =~= done);
    }
    out
}


/// Law: no line holds a line feed.
pub proof fn lines_hold_no_line_feed(s: Seq<char>)
    ensures
        forall|k: int, i: int|
            0 <= k < lines(s).len() && 0 <= i < lines(s)[k].len() ==> #[trigger] lines(s)[k][i]
                != '\n',
    decreases s.len(),
{
    if s.len() > 0 {
        lemma_line_end_bound(s);
        let e = line_end(s);
        if e < s.len() {
            let rest = s.skip(e as int + 1);
            lines_hold_no_line_feed(rest);
            let first = strip_cr(s.take(e as int));
            assert forall|k: int, i: int|
                0 <= k < lines(s).len() && 0 <= i < lines(s)[k].len() implies #[trigger] lines(
                s,
            )[k][i] != '\n' by {
                if k == 0 {
                    assert(lines(s)[0] == first);
                    assert(first[i] == s[i]);
                } else {
                    assert(lines(s)[k] == lines(rest)[k - 1]);
                }
            }
        }
    }
}

/// Law: a final line feed adds no line: `s` and `s` followed by `\n` have
/// the same lines, where `s` is not empty and ends neither in `\n` nor in
/// `\r`.
pub proof fn lines_ignore_final_line_feed(s: Seq<char>)
    requires
        s.len() > 0,
        s.last() != '\n',
        s.last() != '\r',
    ensures
        lines(s.push('\n')) == lines(s),
    decreases s.len(),
{
    let t = s.push('\n');
    lemma_line_end_bound(s);
    let e = line_end(s);
    if e < s.len() {
        lemma_line_end_is(t, e as int);
        assert(t.take(e as int) =~= s.take(e as int));
        let rest = s.skip(e as int + 1);
        assert(e < s.len() - 1) by {
            assert(s[e as int] == '\n');
        }
        assert(t.skip(e as int + 1) =~= rest.push('\n'));
        assert(rest.last() == s.last());
        lines_ignore_final_line_feed(rest);
    } else {
        lemma_line_end_is(t, s.len() as int);
        assert(t.take(s.len() as int) =~= s);
        assert(t.skip(s.len() as int + 1) =~= Seq::<char>::empty());
        assert(lines(Seq::<char>::empty()) =~= Seq::<Seq<char>>::empty());
        assert(strip_cr(s) == s);
        assert(lines(t) == seq![strip_cr(t.take(s.len() as int))] + lines(t.skip(s.len() as int + 1)));
        assert(lines(t) =~= seq![s]);
    }
}

} // verus!

//! The lines of a text, and texts that are written line by line.

use vstd::prelude::*;
use crate::order::{ascending, precedes};
use crate::text::{
    chars_of, is_whitespace, joined, lemma_trimmed_end_push, trimmed, trimmed_end, trimmed_start,
};

verus! {

/// `s` without the one line feed at its end, and `s` itself where it ends in none.
pub open spec fn without_final_feed(s: Seq<char>) -> Seq<char> {
    if s.len() > 0 && s.last() == '\n' {
        s.drop_last()
    } else {
        s
    }
}

/// The slice of `s` that ends before the one line feed at its end.
pub fn strip_final_feed(s: &str) -> (r: &str)
    ensures
        r@ == without_final_feed(s@),
{
    let chars = chars_of(s);
    let n: usize = chars.len();
    if n > 0 && chars[n - 1] == '\n' {
        s.substring_char(0, n - 1)
    } else {
        assert(s@.subrange(0, n as int) =~= s@);
        s.substring_char(0, n)
    }
}

/// A line feed that is put at the end of a text is the one that goes again.
pub proof fn lemma_without_final_feed(s: Seq<char>)
    ensures
        without_final_feed(s + "\n"@) == s,
        without_final_feed(s.push('\n')) == s,
{
    reveal_strlit("\n");
    assert(s + "\n"@ =~= s.push('\n'));
    assert(s.push('\n').drop_last() =~= s);
}

/// Trimming the whole of a text takes the line feed at its end with it.
pub proof fn lemma_trimmed_without_final_feed(text: Seq<char>)
    ensures
        trimmed(without_final_feed(text)) == trimmed(text),
{
}

/// The lines of a file that holds the words `v`, each once and in order, joined
/// by line feeds and ended by one: the words, and for want of words one empty
/// line.
pub proof fn lemma_lines_of_written(v: Seq<Seq<char>>)
    requires
        forall|i: int| 0 <= i < v.len() ==> is_line(#[trigger] v[i]),
    ensures
        lines_of(joined(v, "\n"@) + "\n"@) == if v.len() == 0 {
            seq![Seq::<char>::empty()]
        } else {
            v
        },
{
    if v.len() == 0 {
        let none = Seq::<char>::empty();
        assert(joined(v, "\n"@) =~= none);
        assert(joined(v, "\n"@) + "\n"@ =~= none + "\n"@ + none);
        lemma_lines_of_cons(none, none);
        assert(lines_of(none) =~= Seq::<Seq<char>>::empty());
        assert(lines_of(joined(v, "\n"@) + "\n"@) =~= seq![none]);
    } else {
        lemma_joined_is_serialized(v);
        lemma_lines_of_serialized(v);
    }
}

/// The number of characters of `s` before its first line feed.
pub open spec fn line_end(s: Seq<char>) -> nat
    decreases s.len(),
{
    if s.len() == 0 || s[0] == '\n' {
        0
    } else {
        1 + line_end(s.drop_first())
    }
}

/// `line` without one carriage return at its end.
pub open spec fn without_cr(line: Seq<char>) -> Seq<char> {
    if line.len() > 0 && line.last() == '\r' {
        line.drop_last()
    } else {
        line
    }
}

/// The lines of `s`. A line ends at a line feed, or at a carriage return directly
/// followed by one; neither belongs to the line. The last line needs no line ending,
/// and a line ending at the very end of `s` starts no further line.
pub open spec fn lines_of(s: Seq<char>) -> Seq<Seq<char>>
    decreases s.len(),
{
    if s.len() == 0 {
        Seq::empty()
    } else {
        let n = line_end(s);
        if n >= s.len() {
            seq![s]
        } else {
            seq![without_cr(s.subrange(0, n as int))] + lines_of(
                s.subrange(n as int + 1, s.len() as int),
            )
        }
    }
}

/// The first line of `s`, empty where `s` has no line.
pub open spec fn first_line_of(s: Seq<char>) -> Seq<char> {
    if lines_of(s).len() > 0 {
        lines_of(s)[0]
    } else {
        Seq::empty()
    }
}

/// `line_end` is the first position that holds a line feed, or the length.
pub proof fn lemma_line_end(s: Seq<char>, k: int)
    requires
        0 <= k <= s.len(),
        forall|i: int| 0 <= i < k ==> s[i] != '\n',
        k == s.len() || s[k] == '\n',
    ensures
        line_end(s) == k,
    decreases k,
{
    if k > 0 {
        lemma_line_end(s.drop_first(), k - 1);
    }
}

/// The lines of `s`, each as a string of its own.
pub fn lines(s: &str) -> (r: Vec<String>)
    ensures
        r.deep_view() == lines_of(s@),
{
    let chars = chars_of(s);
    let n: usize = chars.len();
    let mut out: Vec<String> = Vec::new();
    let mut start: usize = 0;
    assert(s@.subrange(0, n as int) =~= s@);
    assert(out.deep_view() =~= Seq::<Seq<char>>::empty());
    while start < n
        invariant
            start <= n,
            n == chars.len(),
            chars@ == s@,
            lines_of(s@) == out.deep_view() + lines_of(s@.subrange(start as int, n as int)),
        decreases n - start,
    {
        let ghost rest = s@.subrange(start as int, n as int);
        let ghost before = out.deep_view();
        let mut end: usize = start;
        while end < n && chars[end] != '\n'
            invariant
                start <= end <= n,
                n == chars.len(),
                forall|k: int| start <= k < end ==> chars[k] != '\n',
            decreases n - end,
        {
            end += 1;
        }
        proof {
            lemma_line_end(rest, end - start);
        }
        if end == n {
            let line = s.substring_char(start, n).to_owned();
            out.push(line);
            assert(out.deep_view() =~= before.push(rest));
            start = n;
            assert(lines_of(s@.subrange(start as int, n as int)) =~= Seq::<Seq<char>>::empty());
        } else {
            let stop: usize = if end > start && chars[end - 1] == '\r' {
                end - 1
            } else {
                end
            };
            let line = s.substring_char(start, stop).to_owned();
            assert(rest.subrange(0, end - start) =~= s@.subrange(start as int, end as int));
            assert(line@ =~= without_cr(rest.subrange(0, end - start)));
            out.push(line);
            assert(out.deep_view() =~= before.push(line@));
            assert(rest.subrange(end - start + 1, rest.len() as int) =~= s@.subrange(
                end + 1,
                n as int,
            ));
            start = end + 1;
        }
    }
    assert(lines_of(s@.subrange(start as int, n as int)) =~= Seq::<Seq<char>>::empty());
    out
}

/// The first line of `s`, empty where `s` is empty.
pub fn first_line(s: &str) -> (r: String)
    ensures
        r@ == first_line_of(s@),
{
    let all = lines(s);
    if all.len() > 0 {
        assert(all.deep_view()[0] == all@[0]@);
        all[0].clone()
    } else {
        String::new()
    }
}

/// Whether `s` can stand as a line of a file: it holds no line feed and does not
/// end with a carriage return.
pub open spec fn is_line(s: Seq<char>) -> bool {
    &&& forall|i: int| 0 <= i < s.len() ==> s[i] != '\n'
    &&& s.len() > 0 ==> s.last() != '\r'
}

/// Every string of `v`, each followed by a line feed.
pub open spec fn serialized(v: Seq<Seq<char>>) -> Seq<char>
    decreases v.len(),
{
    if v.len() == 0 {
        Seq::empty()
    } else {
        v[0] + "\n"@ + serialized(v.drop_first())
    }
}

/// A line and its line feed in front of a text are the first line of the whole.
pub proof fn lemma_lines_of_cons(line: Seq<char>, rest: Seq<char>)
    requires
        is_line(line),
    ensures
        lines_of(line + "\n"@ + rest) == seq![line] + lines_of(rest),
{
    reveal_strlit("\n");
    let s = line + "\n"@ + rest;
    assert(s[line.len() as int] == '\n');
    assert forall|i: int| 0 <= i < line.len() implies s[i] != '\n' by {
        assert(s[i] == line[i]);
    }
    lemma_line_end(s, line.len() as int);
    assert(s.subrange(0, line.len() as int) =~= line);
    assert(s.subrange(line.len() as int + 1, s.len() as int) =~= rest);
}

/// The lines of a file that holds one line after the other are those lines.
pub proof fn lemma_lines_of_serialized(v: Seq<Seq<char>>)
    requires
        forall|i: int| 0 <= i < v.len() ==> is_line(#[trigger] v[i]),
    ensures
        lines_of(serialized(v)) == v,
    decreases v.len(),
{
    if v.len() == 0 {
        assert(lines_of(serialized(v)) =~= v);
    } else {
        let rest = v.drop_first();
        assert forall|i: int| 0 <= i < rest.len() implies is_line(#[trigger] rest[i]) by {
            assert(rest[i] == v[i + 1]);
        }
        lemma_lines_of_serialized(rest);
        lemma_lines_of_cons(v[0], serialized(rest));
        assert(seq![v[0]] + rest =~= v);
    }
}

/// A further line at the end is serialized after the others.
pub proof fn lemma_serialized_push(v: Seq<Seq<char>>, line: Seq<char>)
    ensures
        serialized(v.push(line)) == serialized(v) + line + "\n"@,
    decreases v.len(),
{
    if v.len() == 0 {
        let one = v.push(line);
        assert(one.drop_first() =~= Seq::<Seq<char>>::empty());
        assert(serialized(one.drop_first()) =~= Seq::<char>::empty());
        assert(serialized(one) =~= one[0] + "\n"@ + serialized(one.drop_first()));
        assert(serialized(one) =~= serialized(v) + line + "\n"@);
    } else {
        lemma_serialized_push(v.drop_first(), line);
        assert(v.push(line).drop_first() =~= v.drop_first().push(line));
        assert(serialized(v.push(line)) =~= serialized(v) + line + "\n"@);
    }
}

/// Joining lines by line feeds and ending the last by one more is writing each
/// with its line feed.
pub proof fn lemma_joined_is_serialized(v: Seq<Seq<char>>)
    requires
        v.len() > 0,
    ensures
        joined(v, "\n"@) + "\n"@ == serialized(v),
    decreases v.len(),
{
    if v.len() == 1 {
        assert(v.drop_first() =~= Seq::<Seq<char>>::empty());
        assert(serialized(v.drop_first()) =~= Seq::<char>::empty());
        assert(serialized(v) =~= v[0] + "\n"@ + serialized(v.drop_first()));
        assert(joined(v, "\n"@) + "\n"@ =~= serialized(v));
    } else {
        lemma_joined_is_serialized(v.drop_last());
        lemma_serialized_push(v.drop_last(), v.last());
        assert(v.drop_last().push(v.last()) =~= v);
        assert(joined(v, "\n"@) + "\n"@ =~= serialized(v.drop_last()) + v.last() + "\n"@);
    }
}

/// No line feed stands before the end of the first line.
pub proof fn lemma_before_line_end(s: Seq<char>, i: int)
    requires
        0 <= i < line_end(s),
    ensures
        i < s.len(),
        s[i] != '\n',
    decreases s.len(),
{
    if i > 0 {
        lemma_before_line_end(s.drop_first(), i - 1);
    }
}

/// The first line ends within the text.
pub proof fn lemma_line_end_bound(s: Seq<char>)
    ensures
        line_end(s) <= s.len(),
    decreases s.len(),
{
    if s.len() > 0 && s[0] != '\n' {
        lemma_line_end_bound(s.drop_first());
    }
}

/// No line of a text holds a line feed.
pub proof fn lemma_lines_hold_no_feed(s: Seq<char>, k: int, i: int)
    requires
        0 <= k < lines_of(s).len(),
        0 <= i < lines_of(s)[k].len(),
    ensures
        lines_of(s)[k][i] != '\n',
    decreases s.len(),
{
    let n = line_end(s);
    lemma_line_end_bound(s);
    if n >= s.len() {
        lemma_before_line_end(s, i);
    } else if k == 0 {
        lemma_before_line_end(s, i);
    } else {
        lemma_lines_hold_no_feed(s.subrange(n as int + 1, s.len() as int), k - 1, i);
    }
}

/// Whether `s` is a plain word: not empty, without whitespace at either end and
/// without a line feed.
pub open spec fn is_plain(s: Seq<char>) -> bool {
    &&& s.len() > 0
    &&& !is_whitespace(s.first())
    &&& !is_whitespace(s.last())
    &&& forall|i: int| 0 <= i < s.len() ==> s[i] != '\n'
}

/// Whether each string of `v` is plain, or empty.
pub open spec fn all_plain_or_empty(v: Seq<Seq<char>>) -> bool {
    forall|i: int| 0 <= i < v.len() ==> (#[trigger] v[i]).len() == 0 || is_plain(v[i])
}

/// The strings of `v` but an empty one at its head.
pub open spec fn without_empty_head(v: Seq<Seq<char>>) -> Seq<Seq<char>> {
    if v.len() > 0 && v[0].len() == 0 {
        v.drop_first()
    } else {
        v
    }
}

/// Joined lines begin with the first line and go on with the others.
pub proof fn lemma_joined_front(v: Seq<Seq<char>>)
    requires
        v.len() >= 2,
    ensures
        joined(v, "\n"@) == v[0] + "\n"@ + joined(v.drop_first(), "\n"@),
{
    reveal_strlit("\n");
    lemma_joined_is_serialized(v);
    lemma_joined_is_serialized(v.drop_first());
    let whole = joined(v, "\n"@) + "\n"@;
    let parts = v[0] + "\n"@ + joined(v.drop_first(), "\n"@) + "\n"@;
    assert(whole =~= parts);
    assert(joined(v, "\n"@) =~= whole.drop_last());
    assert(v[0] + "\n"@ + joined(v.drop_first(), "\n"@) =~= parts.drop_last());
}

/// Plain words that are joined by line feeds are the lines of the whole, which has
/// no whitespace at either end.
pub proof fn lemma_lines_of_joined(v: Seq<Seq<char>>)
    requires
        v.len() > 0,
        forall|i: int| 0 <= i < v.len() ==> is_plain(#[trigger] v[i]),
    ensures
        lines_of(joined(v, "\n"@)) == v,
        joined(v, "\n"@).len() > 0,
        joined(v, "\n"@).first() == v[0].first(),
        joined(v, "\n"@).last() == v.last().last(),
    decreases v.len(),
{
    reveal_strlit("\n");
    if v.len() == 1 {
        let line = v[0];
        assert(joined(v, "\n"@) == line);
        lemma_line_end(line, line.len() as int);
        assert(lines_of(line) =~= seq![line]);
        assert(seq![line] =~= v);
    } else {
        let rest = v.drop_first();
        assert forall|i: int| 0 <= i < rest.len() implies is_plain(#[trigger] rest[i]) by {
            assert(rest[i] == v[i + 1]);
        }
        lemma_lines_of_joined(rest);
        lemma_joined_front(v);
        assert(v[0].last() != '\r');
        lemma_lines_of_cons(v[0], joined(rest, "\n"@));
        assert(seq![v[0]] + rest =~= v);
        let whole = joined(v, "\n"@);
        assert(whole.first() == v[0].first());
        assert(whole.last() == joined(rest, "\n"@).last());
        assert(rest.last() == v.last());
    }
}

/// A text without whitespace at either end is its own trimming.
pub proof fn lemma_trimmed_of_tight(s: Seq<char>)
    requires
        s.len() > 0,
        !is_whitespace(s.first()),
        !is_whitespace(s.last()),
    ensures
        trimmed(s) == s,
        trimmed_end(s) == s,
        trimmed_start(s) == s,
{
}

/// The lines of a tags file that was written from ascending words, read back
/// without the whitespace around the whole: the words, but an empty one.
pub proof fn lemma_lines_of_trimmed(v: Seq<Seq<char>>)
    requires
        ascending(v),
        all_plain_or_empty(v),
    ensures
        lines_of(trimmed(joined(v, "\n"@) + "\n"@)) == without_empty_head(v),
        forall|i: int|
            0 <= i < without_empty_head(v).len() ==> is_plain(#[trigger] without_empty_head(v)[i]),
{
    reveal_strlit("\n");
    let w = without_empty_head(v);
    let feed = "\n"@;
    let content = joined(v, feed) + feed;
    assert(is_whitespace('\n'));
    assert forall|i: int| 0 <= i < w.len() implies is_plain(#[trigger] w[i]) by {
        if v[0].len() == 0 {
            assert(w[i] == v[i + 1]);
            assert(precedes(v[0], v[i + 1]));
        } else if i > 0 {
            assert(precedes(v[0], v[i]));
        }
    }
    if w.len() == 0 {
        // nothing but a line feed
        if v.len() > 0 {
            assert(v =~= seq![v[0]]);
            assert(joined(v, feed) == v[0]);
        }
        assert(content =~= Seq::<char>::empty().push('\n'));
        lemma_trimmed_end_push(Seq::<char>::empty(), '\n');
        assert(trimmed(content) =~= Seq::<char>::empty());
        assert(lines_of(trimmed(content)) =~= w);
    } else {
        lemma_lines_of_joined(w);
        let tight = joined(w, feed);
        lemma_trimmed_of_tight(tight);
        if v[0].len() == 0 {
            // an empty first line: the text begins with a line feed
            assert(v.len() >= 2);
            lemma_joined_front(v);
            assert(v[0] =~= Seq::<char>::empty());
            assert(content =~= (seq!['\n'] + tight).push('\n'));
            lemma_trimmed_end_push(seq!['\n'] + tight, '\n');
            let headed = seq!['\n'] + tight;
            assert(headed.last() == tight.last());
            assert(trimmed_end(headed) == headed);
            assert(headed.drop_first() =~= tight);
            assert(trimmed_start(headed) == trimmed_start(tight));
            assert(trimmed(content) == tight);
        } else {
            assert(w == v);
            assert(content =~= tight.push('\n'));
            lemma_trimmed_end_push(tight, '\n');
            assert(trimmed(content) == tight);
        }
    }
}

/// Without an empty head, ascending words hold what they held before but the
/// empty word.
pub proof fn lemma_without_empty_head(v: Seq<Seq<char>>, t: Seq<char>)
    requires
        ascending(v),
    ensures
        without_empty_head(v).contains(t) <==> v.contains(t) && t.len() > 0,
        ascending(without_empty_head(v)),
{
    let w = without_empty_head(v);
    if v.len() > 0 && v[0].len() == 0 {
        if w.contains(t) {
            let k = choose|k: int| 0 <= k < w.len() && w[k] == t;
            assert(v[k + 1] == t);
            assert(precedes(v[0], v[k + 1]));
        }
        if v.contains(t) && t.len() > 0 {
            let k = choose|k: int| 0 <= k < v.len() && v[k] == t;
            assert(w[k - 1] == t);
        }
        assert forall|i: int, j: int| 0 <= i < j < w.len() implies precedes(
            #[trigger] w[i],
            #[trigger] w[j],
        ) by {
            assert(precedes(v[i + 1], v[j + 1]));
        }
    } else {
        if v.contains(t) {
            let k = choose|k: int| 0 <= k < v.len() && v[k] == t;
            if k > 0 {
                assert(precedes(v[0], v[k]));
            }
        }
    }
}

} // verus!

use vstd::prelude::*;
use crate::edit_history::TextCoord;

verus! {

/// The text that a sequence of lines shows: the lines joined by line feeds.
pub open spec fn join_lines(lines: Seq<Seq<char>>) -> Seq<char>
    decreases lines.len(),
{
    if lines.len() == 0 {
        Seq::empty()
    } else if lines.len() == 1 {
        lines[0]
    } else {
        join_lines(lines.drop_last()) + seq!['\n'] + lines.last()
    }
}

/// The text in front of line `r`, with the line feed that ends it.
pub open spec fn head_of(lines: Seq<Seq<char>>, r: int) -> Seq<char> {
    if r == 0 {
        Seq::empty()
    } else {
        join_lines(lines.take(r)) + seq!['\n']
    }
}

/// The text behind line `r`, with the line feed that starts it.
pub open spec fn tail_of(lines: Seq<Seq<char>>, r: int) -> Seq<char> {
    if r + 1 >= lines.len() {
        Seq::empty()
    } else {
        seq!['\n'] + join_lines(lines.skip(r + 1))
    }
}

pub open spec fn valid_coord(lines: Seq<Seq<char>>, c: TextCoord) -> bool {
    c.0 < lines.len() && c.1 <= lines[c.0 as int].len()
}

/// The position of a caret in the joined text, counted in characters.
pub open spec fn coord_offset(lines: Seq<Seq<char>>, c: TextCoord) -> int {
    head_of(lines, c.0 as int).len() + c.1
}

pub open spec fn coord_le(a: TextCoord, b: TextCoord) -> bool {
    a.0 < b.0 || (a.0 == b.0 && a.1 <= b.1)
}

/// The pieces of `s` between its line feeds.
pub open spec fn split_lines(s: Seq<char>) -> Seq<Seq<char>>
    decreases s.len(),
{
    if s.len() == 0 {
        seq![Seq::empty()]
    } else {
        let rest = split_lines(s.drop_last());
        if s.last() == '\n' {
            rest.push(Seq::empty())
        } else {
            rest.update(rest.len() - 1, rest.last().push(s.last()))
        }
    }
}

pub proof fn lemma_split_lines_len(s: Seq<char>)
    ensures
        split_lines(s).len() >= 1,
        split_lines(s).len() <= s.len() + 1,
    decreases s.len(),
{
    if s.len() > 0 {
        lemma_split_lines_len(s.drop_last());
    }
}

pub proof fn lemma_join_split(s: Seq<char>)
    ensures
        split_lines(s).len() >= 1,
        join_lines(split_lines(s)) == s,
    decreases s.len(),
{
    lemma_split_lines_len(s);
    if s.len() > 0 {
        let p = s.drop_last();
        lemma_join_split(p);
        let rest = split_lines(p);
        if s.last() == '\n' {
            let n = rest.push(Seq::<char>::empty());
            assert(n.drop_last() =~= rest);
            assert(join_lines(n) =~= p + seq!['\n'] + Seq::<char>::empty());
            assert(s =~= p + seq!['\n']);
        } else {
            let n = rest.update(rest.len() - 1, rest.last().push(s.last()));
            if rest.len() == 1 {
                assert(join_lines(n) == n[0]);
                assert(s =~= p.push(s.last()));
            } else {
                assert(n.drop_last() =~= rest.drop_last());
                assert(join_lines(rest) == join_lines(rest.drop_last()) + seq!['\n'] + rest.last());
                assert(join_lines(n) == join_lines(rest.drop_last()) + seq!['\n'] + rest.last().push(s.last()));
                assert(s =~= p.push(s.last()));
                assert(join_lines(n) =~= s);
            }
        }
    }
}

/// `join_lines(a + b)` puts one line feed between the two joined halves.
pub proof fn lemma_join_concat(a: Seq<Seq<char>>, b: Seq<Seq<char>>)
    requires
        a.len() > 0,
        b.len() > 0,
    ensures
        join_lines(a + b) == join_lines(a) + seq!['\n'] + join_lines(b),
    decreases b.len(),
{
    if b.len() == 1 {
        assert((a + b).drop_last() =~= a);
        assert((a + b).last() == b[0]);
    } else {
        let b1 = b.drop_last();
        lemma_join_concat(a, b1);
        assert((a + b).drop_last() =~= a + b1);
        assert((a + b).last() == b.last());
        assert(join_lines(a + b) == join_lines(a + b1) + seq!['\n'] + b.last());
        assert(join_lines(b) == join_lines(b1) + seq!['\n'] + b.last());
        assert(join_lines(a + b) =~= join_lines(a) + seq!['\n'] + join_lines(b));
    }
}

/// Replacing lines `r1..=r2` by the nonempty `x` replaces their joined text by `join_lines(x)`.
pub proof fn lemma_join_replace(lines: Seq<Seq<char>>, r1: int, r2: int, x: Seq<Seq<char>>)
    requires
        0 <= r1 <= r2 < lines.len(),
        x.len() > 0,
    ensures
        join_lines(lines.take(r1) + x + lines.skip(r2 + 1))
            == head_of(lines, r1) + join_lines(x) + tail_of(lines, r2),
        join_lines(lines) == head_of(lines, r1) + join_lines(lines.subrange(r1, r2 + 1)) + tail_of(lines, r2),
{
    let pre = lines.take(r1);
    let post = lines.skip(r2 + 1);
    let whole = pre + x + post;
    assert(lines.take(r1).len() == r1);
    if r1 > 0 {
        assert(whole =~= pre + (x + post));
        if post.len() > 0 {
            lemma_join_concat(x, post);
            lemma_join_concat(pre, x + post);
        } else {
            assert(x + post =~= x);
            lemma_join_concat(pre, x);
        }
    } else {
        assert(whole =~= x + post);
        if post.len() > 0 {
            lemma_join_concat(x, post);
        } else {
            assert(x + post =~= x);
        }
    }
    assert(join_lines(whole) =~= head_of(lines, r1) + join_lines(x) + tail_of(lines, r2));
    let mid = lines.subrange(r1, r2 + 1);
    assert(lines =~= pre + mid + post);
    if r1 > 0 {
        assert(pre + mid + post =~= pre + (mid + post));
        if post.len() > 0 {
            lemma_join_concat(mid, post);
            lemma_join_concat(pre, mid + post);
        } else {
            assert(mid + post =~= mid);
            lemma_join_concat(pre, mid);
        }
    } else {
        assert(pre + mid + post =~= mid + post);
        if post.len() > 0 {
            lemma_join_concat(mid, post);
        } else {
            assert(mid + post =~= mid);
        }
    }
    assert(join_lines(lines) =~= head_of(lines, r1) + join_lines(mid) + tail_of(lines, r2));
}

/// The joined text splits at line `r` into what stands in front of it, the line, and what follows.
pub proof fn lemma_join_at(lines: Seq<Seq<char>>, r: int)
    requires
        0 <= r < lines.len(),
    ensures
        join_lines(lines) == head_of(lines, r) + lines[r] + tail_of(lines, r),
{
    lemma_join_replace(lines, r, r, seq![lines[r]]);
    assert(lines.take(r) + seq![lines[r]] + lines.skip(r + 1) =~= lines);
}

/// A changed first line changes the front of the joined text.
pub proof fn lemma_join_update_first(x: Seq<Seq<char>>, y: Seq<char>)
    requires
        x.len() > 0,
    ensures
        join_lines(x.update(0, y)) == y + join_lines(x).skip(x[0].len() as int),
        join_lines(x).take(x[0].len() as int) == x[0],
{
    lemma_join_at(x, 0);
    lemma_join_at(x.update(0, y), 0);
    assert(x.update(0, y).skip(1) =~= x.skip(1));
    assert(tail_of(x.update(0, y), 0) == tail_of(x, 0));
    assert(join_lines(x) == x[0] + tail_of(x, 0));
    assert(join_lines(x).skip(x[0].len() as int) =~= tail_of(x, 0));
    assert(join_lines(x).take(x[0].len() as int) =~= x[0]);
}

/// A changed last line changes the end of the joined text.
pub proof fn lemma_join_update_last(x: Seq<Seq<char>>, y: Seq<char>)
    requires
        x.len() > 0,
    ensures
        join_lines(x.update(x.len() - 1, y)) == join_lines(x).take(join_lines(x).len() - x.last().len()) + y,
        join_lines(x).skip(join_lines(x).len() - x.last().len()) == x.last(),
{
    let n = x.len() - 1;
    lemma_join_at(x, n);
    lemma_join_at(x.update(n, y), n);
    assert(x.update(n, y).take(n) =~= x.take(n));
    assert(head_of(x.update(n, y), n) == head_of(x, n));
    assert(join_lines(x) == head_of(x, n) + x[n]);
    assert(join_lines(x).take(join_lines(x).len() - x.last().len()) =~= head_of(x, n));
    assert(join_lines(x).skip(join_lines(x).len() - x.last().len()) =~= x[n]);
}

/// Where the caret stands in the joined text.
pub proof fn lemma_coord_offset(lines: Seq<Seq<char>>, c: TextCoord)
    requires
        valid_coord(lines, c),
    ensures
        0 <= coord_offset(lines, c) <= join_lines(lines).len(),
        join_lines(lines).take(coord_offset(lines, c))
            == head_of(lines, c.0 as int) + lines[c.0 as int].take(c.1 as int),
        join_lines(lines).skip(coord_offset(lines, c))
            == lines[c.0 as int].skip(c.1 as int) + tail_of(lines, c.0 as int),
{
    let r = c.0 as int;
    lemma_join_at(lines, r);
    let h = head_of(lines, r);
    let t = join_lines(lines);
    assert(t.take(coord_offset(lines, c)) =~= h + lines[r].take(c.1 as int));
    assert(t.skip(coord_offset(lines, c)) =~= lines[r].skip(c.1 as int) + tail_of(lines, r));
}


/// The text in front of the next line adds this line and its line feed.
pub proof fn lemma_head_next(lines: Seq<Seq<char>>, r: int)
    requires
        0 <= r,
        r + 1 < lines.len(),
    ensures
        head_of(lines, r + 1) == head_of(lines, r) + lines[r] + seq!['\n'],
{
    let t = lines.take(r + 1);
    if r == 0 {
        assert(join_lines(t) == t[0]);
        assert(head_of(lines, 1) =~= lines[0] + seq!['\n']);
        assert(head_of(lines, 0) =~= Seq::<char>::empty());
        assert(head_of(lines, 1) =~= head_of(lines, 0) + lines[0] + seq!['\n']);
    } else {
        assert(t.drop_last() =~= lines.take(r));
        assert(join_lines(t) == join_lines(lines.take(r)) + seq!['\n'] + lines[r]);
        assert(head_of(lines, r + 1) =~= head_of(lines, r) + lines[r] + seq!['\n']);
    }
}

/// The joined text between the end of line `r` and column `k` of line `r + 1`.
pub proof fn lemma_next_row_text(lines: Seq<Seq<char>>, r: usize, k: usize)
    requires
        r + 1 < lines.len(),
        r < usize::MAX,
        k <= lines[r + 1].len(),
        lines[r as int].len() <= usize::MAX,
    ensures
        coord_offset(lines, TextCoord((r + 1) as usize, 0)) == coord_offset(lines, TextCoord(r, lines[r as int].len() as usize)) + 1,
        join_lines(lines).subrange(
            coord_offset(lines, TextCoord(r, lines[r as int].len() as usize)),
            coord_offset(lines, TextCoord((r + 1) as usize, k)),
        ) == seq!['\n'] + lines[r + 1].take(k as int),
{
    lemma_head_next(lines, r as int);
    let c1 = TextCoord(r, lines[r as int].len() as usize);
    let c2 = TextCoord((r + 1) as usize, k);
    lemma_coord_offset(lines, c2);
    let t = join_lines(lines);
    assert(t.take(coord_offset(lines, c2)) == head_of(lines, r + 1) + lines[r + 1].take(k as int));
    assert(t.subrange(coord_offset(lines, c1), coord_offset(lines, c2)) =~= t.take(coord_offset(lines, c2)).skip(coord_offset(lines, c1)));
    assert(t.subrange(coord_offset(lines, c1), coord_offset(lines, c2)) =~= seq!['\n'] + lines[r + 1].take(k as int));
}

/// The joined text between two carets on one line.
pub proof fn lemma_same_row_text(lines: Seq<Seq<char>>, r: usize, a: usize, b: usize)
    requires
        r < lines.len(),
        a <= b <= lines[r as int].len(),
    ensures
        join_lines(lines).subrange(
            coord_offset(lines, TextCoord(r, a)),
            coord_offset(lines, TextCoord(r, b)),
        ) == lines[r as int].subrange(a as int, b as int),
{
    lemma_join_at(lines, r as int);
    let t = join_lines(lines);
    let h = head_of(lines, r as int);
    assert(t.subrange(h.len() + a, h.len() + b) =~= lines[r as int].subrange(a as int, b as int));
}

pub proof fn lemma_head_prefix(lines: Seq<Seq<char>>, r1: int, r2: int)
    requires
        0 <= r1 <= r2 < lines.len(),
    ensures
        head_of(lines, r1).len() <= head_of(lines, r2).len(),
        r1 < r2 ==> head_of(lines, r1).len() + lines[r1].len() < head_of(lines, r2).len(),
    decreases r2 - r1,
{
    if r1 < r2 {
        lemma_head_prefix(lines, r1, r2 - 1);
        lemma_head_next(lines, r2 - 1);
    }
}

/// Carets in text order stand at offsets in the same order.
pub proof fn lemma_coord_order(lines: Seq<Seq<char>>, a: TextCoord, b: TextCoord)
    requires
        valid_coord(lines, a),
        valid_coord(lines, b),
        coord_le(a, b),
    ensures
        coord_offset(lines, a) <= coord_offset(lines, b),
{
    lemma_head_prefix(lines, a.0 as int, b.0 as int);
}

/// For carets in the text, text order and offset order agree.
pub proof fn lemma_offset_order(lines: Seq<Seq<char>>, a: TextCoord, b: TextCoord)
    requires
        valid_coord(lines, a),
        valid_coord(lines, b),
        coord_offset(lines, a) <= coord_offset(lines, b),
    ensures
        coord_le(a, b),
{
    if !coord_le(a, b) {
        if b.0 < a.0 {
            lemma_head_prefix(lines, b.0 as int, a.0 as int);
        }
    }
}

/// The caret at a given offset of the text.
pub open spec fn coord_at(lines: Seq<Seq<char>>, off: int) -> TextCoord {
    choose|c: TextCoord| valid_coord(lines, c) && coord_offset(lines, c) == off
}

/// Two carets in the text at one offset are the same caret.
pub proof fn lemma_coord_unique(lines: Seq<Seq<char>>, a: TextCoord, b: TextCoord)
    requires
        valid_coord(lines, a),
        valid_coord(lines, b),
        coord_offset(lines, a) == coord_offset(lines, b),
    ensures
        a == b,
        coord_at(lines, coord_offset(lines, a)) == a,
{
    lemma_offset_order(lines, a, b);
    lemma_offset_order(lines, b, a);
    let c = coord_at(lines, coord_offset(lines, a));
    assert(valid_coord(lines, c) && coord_offset(lines, c) == coord_offset(lines, a));
    lemma_offset_order(lines, a, c);
    lemma_offset_order(lines, c, a);
}

/// Whether no line holds a line feed: the lines are the pieces of their joined text.
pub open spec fn no_line_feed(lines: Seq<Seq<char>>) -> bool {
    forall|i: int, j: int| 0 <= i < lines.len() && 0 <= j < lines[i].len() ==> #[trigger] lines[i][j] != '\n'
}

pub open spec fn free_of_line_feed(s: Seq<char>) -> bool {
    forall|j: int| 0 <= j < s.len() ==> #[trigger] s[j] != '\n'
}

/// Appending a text without line feeds extends the last piece.
pub proof fn lemma_split_append(x: Seq<char>, l: Seq<char>)
    requires
        free_of_line_feed(l),
    ensures
        split_lines(x + l) == split_lines(x).update(split_lines(x).len() - 1, split_lines(x).last() + l),
    decreases l.len(),
{
    lemma_split_lines_len(x);
    let sx = split_lines(x);
    if l.len() == 0 {
        assert(x + l =~= x);
        assert(sx.last() + l =~= sx.last());
        assert(sx.update(sx.len() - 1, sx.last()) =~= sx);
    } else {
        let l0 = l.drop_last();
        assert(free_of_line_feed(l0)) by {
            assert forall|j: int| 0 <= j < l0.len() implies #[trigger] l0[j] != '\n' by {
                assert(l0[j] == l[j]);
            }
        }
        lemma_split_append(x, l0);
        assert((x + l).drop_last() =~= x + l0);
        assert((x + l).last() == l.last());
        assert(l.last() == l[l.len() - 1]);
        let rest = split_lines(x + l0);
        assert(rest.last() == sx.last() + l0);
        assert(sx.last() + l0 + seq![l.last()] =~= sx.last() + l);
        assert(rest.len() == sx.len());
        assert(rest.last().push(l.last()) =~= sx.last() + l);
        assert(rest.update(rest.len() - 1, rest.last().push(l.last()))
            =~= sx.update(sx.len() - 1, sx.last() + l));
    }
}

/// A text without line feeds is one piece.
pub proof fn lemma_split_single(l: Seq<char>)
    requires
        free_of_line_feed(l),
    ensures
        split_lines(l) == seq![l],
{
    lemma_split_append(Seq::empty(), l);
    assert(Seq::<char>::empty() + l =~= l);
    assert(split_lines(Seq::<char>::empty()) == seq![Seq::<char>::empty()]);
    assert(seq![Seq::<char>::empty()].update(0, Seq::<char>::empty() + l) =~= seq![l]);
}

/// Splitting the joined text of lines without line feeds gives the lines back.
pub proof fn lemma_split_join(lines: Seq<Seq<char>>)
    requires
        lines.len() >= 1,
        no_line_feed(lines),
    ensures
        split_lines(join_lines(lines)) == lines,
    decreases lines.len(),
{
    let last = lines.last();
    assert(free_of_line_feed(last)) by {
        assert forall|j: int| 0 <= j < last.len() implies #[trigger] last[j] != '\n' by {
            assert(lines[lines.len() - 1][j] != '\n');
        }
    }
    if lines.len() == 1 {
        lemma_split_single(lines[0]);
        assert(seq![lines[0]] =~= lines);
    } else {
        let init = lines.drop_last();
        assert(no_line_feed(init)) by {
            assert forall|i: int, j: int| 0 <= i < init.len() && 0 <= j < init[i].len() implies #[trigger] init[i][j] != '\n' by {
                assert(init[i] == lines[i]);
            }
        }
        lemma_split_join(init);
        let x = join_lines(init) + seq!['\n'];
        assert(x.drop_last() =~= join_lines(init));
        assert(x.last() == '\n');
        assert(split_lines(x) == init.push(Seq::<char>::empty()));
        lemma_split_append(x, last);
        assert(join_lines(lines) == x + last);
        assert(init.push(Seq::<char>::empty()).update(init.len() as int, Seq::<char>::empty() + last) =~= lines);
    }
}

/// Lines without line feeds are fixed by their joined text.
pub proof fn lemma_join_injective(a: Seq<Seq<char>>, b: Seq<Seq<char>>)
    requires
        a.len() >= 1,
        b.len() >= 1,
        no_line_feed(a),
        no_line_feed(b),
        join_lines(a) == join_lines(b),
    ensures
        a == b,
{
    lemma_split_join(a);
    lemma_split_join(b);
}

/// The pieces of a text hold no line feed.
pub proof fn lemma_split_no_line_feed(s: Seq<char>)
    ensures
        no_line_feed(split_lines(s)),
    decreases s.len(),
{
    if s.len() > 0 {
        let p = s.drop_last();
        lemma_split_no_line_feed(p);
        lemma_split_lines_len(p);
        let rest = split_lines(p);
        let n = split_lines(s);
        assert forall|i: int, j: int| 0 <= i < n.len() && 0 <= j < n[i].len() implies #[trigger] n[i][j] != '\n' by {
            if s.last() == '\n' {
                if i < rest.len() {
                    assert(n[i] == rest[i]);
                }
            } else {
                if i < rest.len() - 1 {
                    assert(n[i] == rest[i]);
                } else {
                    assert(n[i] == rest.last().push(s.last()));
                    if j < rest.last().len() {
                        assert(rest[rest.len() - 1][j] != '\n');
                    }
                }
            }
        }
    }
}

pub proof fn lemma_free_concat(a: Seq<char>, b: Seq<char>)
    requires
        free_of_line_feed(a),
        free_of_line_feed(b),
    ensures
        free_of_line_feed(a + b),
{
    assert forall|j: int| 0 <= j < (a + b).len() implies #[trigger] (a + b)[j] != '\n' by {
        if j < a.len() {
            assert((a + b)[j] == a[j]);
        } else {
            assert((a + b)[j] == b[j - a.len()]);
        }
    }
}

pub proof fn lemma_free_sub(a: Seq<char>, i: int, k: int)
    requires
        free_of_line_feed(a),
        0 <= i <= k <= a.len(),
    ensures
        free_of_line_feed(a.subrange(i, k)),
        free_of_line_feed(a.take(k)),
        free_of_line_feed(a.skip(i)),
{
    assert forall|j: int| 0 <= j < a.subrange(i, k).len() implies #[trigger] a.subrange(i, k)[j] != '\n' by {
        assert(a.subrange(i, k)[j] == a[i + j]);
    }
    assert forall|j: int| 0 <= j < a.take(k).len() implies #[trigger] a.take(k)[j] != '\n' by {
        assert(a.take(k)[j] == a[j]);
    }
    assert forall|j: int| 0 <= j < a.skip(i).len() implies #[trigger] a.skip(i)[j] != '\n' by {
        assert(a.skip(i)[j] == a[i + j]);
    }
}

pub proof fn lemma_line_free(lines: Seq<Seq<char>>, i: int)
    requires
        no_line_feed(lines),
        0 <= i < lines.len(),
    ensures
        free_of_line_feed(lines[i]),
{
    assert forall|j: int| 0 <= j < lines[i].len() implies #[trigger] lines[i][j] != '\n' by {
        assert(lines[i][j] != '\n');
    }
}

pub proof fn lemma_no_line_feed_single(x: Seq<char>)
    requires
        free_of_line_feed(x),
    ensures
        no_line_feed(seq![x]),
{
    assert forall|i: int, j: int| 0 <= i < seq![x].len() && 0 <= j < seq![x][i].len() implies #[trigger] seq![x][i][j] != '\n' by {
        assert(seq![x][i] == x);
    }
}

pub proof fn lemma_no_line_feed_concat(a: Seq<Seq<char>>, b: Seq<Seq<char>>)
    requires
        no_line_feed(a),
        no_line_feed(b),
    ensures
        no_line_feed(a + b),
{
    assert forall|i: int, j: int| 0 <= i < (a + b).len() && 0 <= j < (a + b)[i].len() implies #[trigger] (a + b)[i][j] != '\n' by {
        if i < a.len() {
            assert((a + b)[i] == a[i]);
            assert(a[i][j] != '\n');
        } else {
            assert((a + b)[i] == b[i - a.len()]);
            assert(b[i - a.len()][j] != '\n');
        }
    }
}

pub proof fn lemma_no_line_feed_sub(a: Seq<Seq<char>>, i: int, k: int)
    requires
        no_line_feed(a),
        0 <= i <= k <= a.len(),
    ensures
        no_line_feed(a.subrange(i, k)),
        no_line_feed(a.take(k)),
        no_line_feed(a.skip(i)),
{
    assert forall|r: int, j: int| 0 <= r < a.subrange(i, k).len() && 0 <= j < a.subrange(i, k)[r].len() implies #[trigger] a.subrange(i, k)[r][j] != '\n' by {
        assert(a.subrange(i, k)[r] == a[i + r]);
        assert(a[i + r][j] != '\n');
    }
    assert forall|r: int, j: int| 0 <= r < a.take(k).len() && 0 <= j < a.take(k)[r].len() implies #[trigger] a.take(k)[r][j] != '\n' by {
        assert(a.take(k)[r] == a[r]);
        assert(a[r][j] != '\n');
    }
    assert forall|r: int, j: int| 0 <= r < a.skip(i).len() && 0 <= j < a.skip(i)[r].len() implies #[trigger] a.skip(i)[r][j] != '\n' by {
        assert(a.skip(i)[r] == a[i + r]);
        assert(a[i + r][j] != '\n');
    }
}

pub proof fn lemma_no_line_feed_update(a: Seq<Seq<char>>, i: int, x: Seq<char>)
    requires
        no_line_feed(a),
        free_of_line_feed(x),
        0 <= i < a.len(),
    ensures
        no_line_feed(a.update(i, x)),
{
    assert forall|r: int, j: int| 0 <= r < a.update(i, x).len() && 0 <= j < a.update(i, x)[r].len() implies #[trigger] a.update(i, x)[r][j] != '\n' by {
        if r == i {
            assert(a.update(i, x)[r] == x);
        } else {
            assert(a.update(i, x)[r] == a[r]);
            assert(a[r][j] != '\n');
        }
    }
}

/// Every offset from the start of row `r` to the end of the text has a caret.
proof fn lemma_coord_exists_from(lines: Seq<Seq<char>>, off: int, r: int)
    requires
        0 <= r < lines.len(),
        head_of(lines, r).len() <= off <= join_lines(lines).len(),
        join_lines(lines).len() + lines.len() < usize::MAX,
    ensures
        exists|c: TextCoord| valid_coord(lines, c) && coord_offset(lines, c) == off,
    decreases lines.len() - r,
{
    lemma_join_at(lines, r);
    let h = head_of(lines, r).len();
    if off <= h + lines[r].len() {
        let c = TextCoord(r as usize, (off - h) as usize);
        assert(valid_coord(lines, c) && coord_offset(lines, c) == off);
    } else {
        if r + 1 >= lines.len() {
            assert(tail_of(lines, r).len() == 0);
        }
        lemma_head_next(lines, r);
        lemma_coord_exists_from(lines, off, r + 1);
    }
}

/// Every offset of a text of at least one line has a caret.
pub proof fn lemma_coord_exists(lines: Seq<Seq<char>>, off: int)
    requires
        lines.len() >= 1,
        0 <= off <= join_lines(lines).len(),
        join_lines(lines).len() + lines.len() < usize::MAX,
    ensures
        valid_coord(lines, coord_at(lines, off)),
        coord_offset(lines, coord_at(lines, off)) == off,
{
    lemma_coord_exists_from(lines, off, 0);
}

} // verus!

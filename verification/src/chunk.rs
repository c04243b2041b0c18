//! Splitting raw text into chunks.
//!
//! A chunk is a maximal run of non-blank lines that is closed by a blank
//! line; each kept line contributes its characters plus a terminating
//! newline. A run that is still open at the end of the input is dropped.

use vstd::prelude::*;

verus! {

/// Characters with the Unicode property White_Space: what `str::trim` removes.
pub open spec fn is_space(c: char) -> bool {
    (9 <= c as u32 && c as u32 <= 13) || c as u32 == 32 || c as u32 == 0x85 || c as u32 == 0xa0
        || c as u32 == 0x1680 || (0x2000 <= c as u32 && c as u32 <= 0x200a) || c as u32 == 0x2028
        || c as u32 == 0x2029 || c as u32 == 0x202f || c as u32 == 0x205f || c as u32 == 0x3000
}

/// A line is blank when every one of its characters is whitespace.
pub open spec fn line_blank(l: Seq<char>) -> bool {
    forall|i: int| 0 <= i < l.len() ==> is_space(#[trigger] l[i])
}

/// Index of the first newline in `t`, or `t.len()` if there is none.
pub open spec fn first_newline(t: Seq<char>) -> nat
    decreases t.len(),
{
    if t.len() == 0 {
        0
    } else if t[0] == '\n' {
        0
    } else {
        1 + first_newline(t.drop_first())
    }
}

/// A carriage return at the very end of a line is part of the line ending,
/// not of the line.
pub open spec fn strip_cr(l: Seq<char>) -> Seq<char> {
    if l.len() > 0 && l[l.len() - 1] == '\r' {
        l.drop_last()
    } else {
        l
    }
}

/// The lines of a text, as `str::lines` yields them: split at each newline,
/// with a carriage return directly before the newline dropped, and a final
/// segment without a terminating newline still counting as a line.
pub open spec fn lines_of(t: Seq<char>) -> Seq<Seq<char>>
    decreases t.len(),
{
    if t.len() == 0 {
        Seq::empty()
    } else {
        let j = first_newline(t);
        if j < t.len() {
            seq![strip_cr(t.subrange(0, j as int))] + lines_of(
                t.subrange(j as int + 1, t.len() as int),
            )
        } else {
            seq![t]
        }
    }
}

/// The chunks produced from the lines `ls` when the characters `buf` have
/// already accumulated from earlier non-blank lines: a blank line closes a
/// non-empty accumulation into a chunk; a non-blank line joins the
/// accumulation together with a newline; an accumulation never closed by a
/// blank line is dropped.
pub open spec fn chunks_from(ls: Seq<Seq<char>>, buf: Seq<char>) -> Seq<Seq<char>>
    decreases ls.len(),
{
    if ls.len() == 0 {
        Seq::empty()
    } else if line_blank(ls[0]) {
        if buf.len() > 0 {
            seq![buf] + chunks_from(ls.drop_first(), Seq::empty())
        } else {
            chunks_from(ls.drop_first(), buf)
        }
    } else {
        chunks_from(ls.drop_first(), buf + ls[0] + seq!['\n'])
    }
}

/// The chunks of a raw text.
pub open spec fn chunks_of(t: Seq<char>) -> Seq<Seq<char>> {
    chunks_from(lines_of(t), Seq::empty())
}

/// Whether `c` is whitespace, decided executably.
fn space_char(c: char) -> (b: bool)
    ensures
        b == is_space(c),
{
    let n = c as u32;
    (9 <= n && n <= 13) || n == 32 || n == 0x85 || n == 0xa0 || n == 0x1680 || (0x2000 <= n && n
        <= 0x200a) || n == 0x2028 || n == 0x2029 || n == 0x202f || n == 0x205f || n == 0x3000
}

/// The views of a sequence of strings.
pub open spec fn string_views(v: Seq<String>) -> Seq<Seq<char>> {
    v.map_values(|s: String| s@)
}

proof fn lemma_first_newline_at(t: Seq<char>, m: nat)
    requires
        m <= t.len(),
        forall|k: int| 0 <= k < m ==> t[k] != '\n',
        m < t.len() ==> t[m as int] == '\n',
    ensures
        first_newline(t) == m,
    decreases m,
{
    if t.len() == 0 {
    } else if t[0] == '\n' {
        assert(m == 0);
    } else {
        assert(m >= 1);
        lemma_first_newline_at(t.drop_first(), (m - 1) as nat);
    }
}

/// Splits a raw text into its chunks: the blank-line-separated sections in
/// document order, each kept line ending in a newline. A final section not
/// closed by a blank line is dropped.
pub fn split_text_into_chunks(raw_text: &str) -> (res: Vec<String>)
    ensures
        string_views(res@) == chunks_of(raw_text@),
{
    let ghost t: Seq<char> = raw_text@;
    let n: usize = raw_text.unicode_len();
    let mut res: Vec<String> = Vec::new();
    let mut buf: String = String::new();
    let mut buf_has: bool = false;
    let mut i: usize = 0;
    proof {
        assert(t.subrange(0, n as int) =~= t);
        assert(string_views(res@) =~= Seq::<Seq<char>>::empty());
        assert(string_views(res@) + chunks_from(lines_of(t), buf@) =~= chunks_from(
            lines_of(t),
            buf@,
        ));
    }
    while i < n
        invariant
            i <= n,
            n == t.len(),
            t == raw_text@,
            buf_has <==> buf@.len() > 0,
            chunks_of(t) == string_views(res@) + chunks_from(
                lines_of(t.subrange(i as int, n as int)),
                buf@,
            ),
        decreases n - i,
    {
        let ghost s = t.subrange(i as int, n as int);
        let mut j: usize = i;
        while j < n && raw_text.get_char(j) != '\n'
            invariant
                i <= j <= n,
                n == t.len(),
                t == raw_text@,
                forall|k: int| i <= k < j ==> #[trigger] t[k] != '\n',
            decreases n - j,
        {
            j += 1;
        }
        let found: bool = j < n;
        proof {
            assert forall|k: int| 0 <= k < j - i implies s[k] != '\n' by {
                assert(s[k] == t[i + k]);
            }
            lemma_first_newline_at(s, (j - i) as nat);
        }
        let jj: usize = if found && j > i && raw_text.get_char(j - 1) == '\r' {
            j - 1
        } else {
            j
        };
        let line: &str = raw_text.substring_char(i, jj);
        let ghost i2: int = if found {
            j as int + 1
        } else {
            n as int
        };
        let ghost rest = lines_of(t.subrange(i2, n as int));
        proof {
            if found {
                assert(s.subrange(0, (j - i) as int) =~= t.subrange(i as int, j as int));
                assert(s.subrange((j - i) as int + 1, s.len() as int) =~= t.subrange(
                    j as int + 1,
                    n as int,
                ));
                assert(strip_cr(t.subrange(i as int, j as int)) =~= t.subrange(
                    i as int,
                    jj as int,
                ));
            } else {
                assert(s =~= t.subrange(i as int, jj as int));
                assert(lines_of(t.subrange(i2, n as int)) =~= Seq::<Seq<char>>::empty());
            }
            assert(lines_of(s) =~= seq![line@] + rest);
            assert((seq![line@] + rest).drop_first() =~= rest);
        }
        let mut blank: bool = true;
        let mut k: usize = i;
        while k < jj
            invariant
                i <= k <= jj <= n,
                n == t.len(),
                t == raw_text@,
                blank <==> (forall|m: int| i <= m < k ==> is_space(#[trigger] t[m])),
            decreases jj - k,
        {
            if !space_char(raw_text.get_char(k)) {
                blank = false;
            }
            k += 1;
        }
        proof {
            if blank {
                assert forall|x: int| 0 <= x < line@.len() implies is_space(line@[x]) by {
                    assert(line@[x] == t[i + x]);
                }
                assert(line_blank(line@));
            } else {
                let m = choose|m: int| i <= m < jj && !is_space(#[trigger] t[m]);
                assert(line@[m - i] == t[m]);
                assert(!line_blank(line@));
            }
        }
        let ghost buf0 = buf@;
        let ghost res0 = res@;
        if !blank {
            buf.append(line);
            buf.append("\n");
            buf_has = true;
            proof {
                reveal_strlit("\n");
                assert("\n"@ =~= seq!['\n']);
                assert(buf@ =~= buf0 + line@ + seq!['\n']);
                assert(chunks_from(lines_of(s), buf0) == chunks_from(rest, buf@));
            }
        }
        if blank && buf_has {
            let finished = buf;
            res.push(finished);
            buf = String::new();
            buf_has = false;
            proof {
                assert(string_views(res@) =~= string_views(res0) + seq![buf0]);
                assert(chunks_from(lines_of(s), buf0) == seq![buf0] + chunks_from(
                    rest,
                    Seq::empty(),
                ));
                assert(string_views(res0) + chunks_from(lines_of(s), buf0) =~= string_views(res@)
                    + chunks_from(rest, buf@));
            }
        }
        proof {
            if blank && buf0.len() == 0 {
                assert(chunks_from(lines_of(s), buf0) == chunks_from(rest, buf@));
            }
        }
        i = if found {
            j + 1
        } else {
            n
        };
    }
    proof {
        assert(lines_of(t.subrange(n as int, n as int)) =~= Seq::<Seq<char>>::empty());
        assert(chunks_from(Seq::empty(), buf@) =~= Seq::<Seq<char>>::empty());
        assert(string_views(res@) + Seq::<Seq<char>>::empty() =~= string_views(res@));
    }
    res
}

proof fn lemma_chunks_from_nonempty(ls: Seq<Seq<char>>, buf: Seq<char>)
    ensures
        forall|i: int|
            0 <= i < chunks_from(ls, buf).len() ==> #[trigger] chunks_from(ls, buf)[i].len() > 0,
    decreases ls.len(),
{
    if ls.len() == 0 {
    } else if line_blank(ls[0]) {
        if buf.len() > 0 {
            lemma_chunks_from_nonempty(ls.drop_first(), Seq::empty());
            let c = chunks_from(ls.drop_first(), Seq::empty());
            assert(chunks_from(ls, buf) == seq![buf] + c);
            assert forall|i: int| 0 <= i < chunks_from(ls, buf).len() implies #[trigger] chunks_from(
                ls,
                buf,
            )[i].len() > 0 by {
                if i > 0 {
                    assert(chunks_from(ls, buf)[i] == c[i - 1]);
                }
            }
        } else {
            lemma_chunks_from_nonempty(ls.drop_first(), buf);
            assert(chunks_from(ls, buf) == chunks_from(ls.drop_first(), buf));
        }
    } else {
        lemma_chunks_from_nonempty(ls.drop_first(), buf + ls[0] + seq!['\n']);
        assert(chunks_from(ls, buf) == chunks_from(ls.drop_first(), buf + ls[0] + seq!['\n']));
    }
}

/// No text ever yields an empty chunk.
pub proof fn lemma_no_empty_chunk(t: Seq<char>)
    ensures
        forall|i: int| 0 <= i < chunks_of(t).len() ==> #[trigger] chunks_of(t)[i].len() > 0,
{
    lemma_chunks_from_nonempty(lines_of(t), Seq::empty());
}

/// The lines joined back together, each closed by a newline.
pub open spec fn joined_lines(ls: Seq<Seq<char>>) -> Seq<char>
    decreases ls.len(),
{
    if ls.len() == 0 {
        Seq::empty()
    } else {
        ls[0] + seq!['\n'] + joined_lines(ls.drop_first())
    }
}

proof fn lemma_chunks_from_no_blank(ls: Seq<Seq<char>>, buf: Seq<char>)
    requires
        forall|i: int| 0 <= i < ls.len() ==> !line_blank(#[trigger] ls[i]),
    ensures
        chunks_from(ls, buf) == Seq::<Seq<char>>::empty(),
    decreases ls.len(),
{
    if ls.len() > 0 {
        assert forall|i: int| 0 <= i < ls.drop_first().len() implies !line_blank(
            #[trigger] ls.drop_first()[i],
        ) by {
            assert(ls.drop_first()[i] == ls[i + 1]);
        }
        lemma_chunks_from_no_blank(ls.drop_first(), buf + ls[0] + seq!['\n']);
    }
}

/// A text none of whose lines is blank yields no chunk at all: a run of
/// lines never closed by a blank line is dropped, however long.
pub proof fn lemma_unterminated_text_yields_nothing(t: Seq<char>)
    requires
        forall|i: int| 0 <= i < lines_of(t).len() ==> !line_blank(#[trigger] lines_of(t)[i]),
    ensures
        chunks_of(t) == Seq::<Seq<char>>::empty(),
{
    lemma_chunks_from_no_blank(lines_of(t), Seq::empty());
}

proof fn lemma_chunks_from_single_run(ls: Seq<Seq<char>>, buf: Seq<char>)
    requires
        ls.len() >= 1,
        line_blank(ls.last()),
        forall|i: int| 0 <= i < ls.len() - 1 ==> !line_blank(#[trigger] ls[i]),
    ensures
        chunks_from(ls, buf) == if buf.len() + joined_lines(ls.drop_last()).len() > 0 {
            seq![buf + joined_lines(ls.drop_last())]
        } else {
            Seq::<Seq<char>>::empty()
        },
    decreases ls.len(),
{
    if ls.len() == 1 {
        assert(ls[0] == ls.last());
        assert(ls.drop_last() =~= Seq::<Seq<char>>::empty());
        assert(buf + joined_lines(ls.drop_last()) =~= buf);
        assert(ls.drop_first() =~= Seq::<Seq<char>>::empty());
        assert(joined_lines(Seq::<Seq<char>>::empty()) == Seq::<char>::empty());
        if buf.len() == 0 {
            assert(chunks_from(ls, buf) == chunks_from(Seq::<Seq<char>>::empty(), buf));
            assert(chunks_from(Seq::<Seq<char>>::empty(), buf) == Seq::<Seq<char>>::empty());
        }
        if buf.len() > 0 {
            assert(chunks_from(ls, buf) == seq![buf] + chunks_from(
                Seq::<Seq<char>>::empty(),
                Seq::<char>::empty(),
            ));
            assert(seq![buf] + Seq::<Seq<char>>::empty() =~= seq![buf]);
            assert(seq![buf] =~= seq![buf + joined_lines(ls.drop_last())]);
        }
    } else {
        assert(!line_blank(ls[0]));
        assert(ls.drop_first().last() == ls.last());
        assert forall|i: int| 0 <= i < ls.drop_first().len() - 1 implies !line_blank(
            #[trigger] ls.drop_first()[i],
        ) by {
            assert(ls.drop_first()[i] == ls[i + 1]);
        }
        lemma_chunks_from_single_run(ls.drop_first(), buf + ls[0] + seq!['\n']);
        assert(chunks_from(ls, buf) == chunks_from(ls.drop_first(), buf + ls[0] + seq!['\n']));
        assert(ls.drop_last()[0] == ls[0]);
        assert(ls.drop_last().len() >= 1);
        assert(joined_lines(ls.drop_last()) == ls.drop_last()[0] + seq!['\n'] + joined_lines(
            ls.drop_last().drop_first(),
        ));
        assert((buf + ls[0] + seq!['\n']).len() > 0);
        assert(buf.len() + joined_lines(ls.drop_last()).len() > 0);
        assert(ls.drop_first().drop_last() =~= ls.drop_last().drop_first());
        assert((buf + ls[0] + seq!['\n']) + joined_lines(ls.drop_first().drop_last()) =~= buf
            + joined_lines(ls.drop_last()));
    }
}

/// A text whose lines are all non-blank except for a single, final blank
/// line yields exactly one chunk: every earlier line in order, each closed
/// by a newline.
pub proof fn lemma_single_section_text(t: Seq<char>)
    requires
        lines_of(t).len() >= 2,
        line_blank(lines_of(t).last()),
        forall|i: int|
            0 <= i < lines_of(t).len() - 1 ==> !line_blank(#[trigger] lines_of(t)[i]),
    ensures
        chunks_of(t) == seq![joined_lines(lines_of(t).drop_last())],
{
    lemma_chunks_from_single_run(lines_of(t), Seq::empty());
    let p = lines_of(t).drop_last();
    assert(joined_lines(p).len() >= 1);
    assert(Seq::<char>::empty() + joined_lines(p) =~= joined_lines(p));
    assert(seq![Seq::<char>::empty() + joined_lines(p)] =~= seq![joined_lines(p)]);
}

} // verus!

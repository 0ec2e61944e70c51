use vstd::prelude::*;

verus! {

/// The mathematical text held by a list of lines: each line as its
/// sequence of characters.
pub open spec fn text_of(lines: Seq<Vec<char>>) -> Seq<Seq<char>> {
    Seq::new(lines.len(), |i: int| lines[i]@)
}

/// A segment closed by a line break loses one trailing carriage return, so
/// that both bare line feeds and carriage-return/line-feed pairs end a line.
pub open spec fn strip_cr(s: Seq<char>) -> Seq<char> {
    if s.len() > 0 && s.last() == '\r' {
        s.drop_last()
    } else {
        s
    }
}

/// Splitting text on line feeds, one segment per stretch between breaks: a
/// line feed closes the current segment (less a trailing carriage return)
/// and opens an empty one, and any other character extends the current
/// segment. Empty text is the single empty segment.
pub open spec fn raw_split(s: Seq<char>) -> Seq<Seq<char>>
    decreases s.len(),
{
    if s.len() == 0 {
        seq![Seq::<char>::empty()]
    } else if s.last() == '\n' {
        let p = raw_split(s.drop_last());
        p.update(p.len() - 1, strip_cr(p.last())).push(Seq::<char>::empty())
    } else {
        let p = raw_split(s.drop_last());
        p.update(p.len() - 1, p.last().push(s.last()))
    }
}

/// The lines a loaded text is split into: the segments between line breaks,
/// except that a trailing line break yields no extra empty line. Empty text
/// still yields one empty line, so the result is never empty.
pub open spec fn split_lines(s: Seq<char>) -> Seq<Seq<char>> {
    let p = raw_split(s);
    if p.len() > 1 && p.last().len() == 0 {
        p.drop_last()
    } else {
        p
    }
}

pub proof fn lemma_raw_split_len(s: Seq<char>)
    ensures
        raw_split(s).len() >= 1,
    decreases s.len(),
{
    if s.len() > 0 {
        lemma_raw_split_len(s.drop_last());
    }
}

pub proof fn lemma_raw_split_no_breaks(s: Seq<char>)
    ensures
        forall|i: int| 0 <= i < raw_split(s).len() ==> !(#[trigger] raw_split(s)[i]).contains('\n'),
    decreases s.len(),
{
    if s.len() == 0 {
        assert forall|i: int| 0 <= i < raw_split(s).len() implies !(#[trigger] raw_split(s)[i]).contains('\n') by {
            assert(raw_split(s)[i] =~= Seq::<char>::empty());
        }
    } else {
        lemma_raw_split_no_breaks(s.drop_last());
        lemma_raw_split_len(s.drop_last());
        let p = raw_split(s.drop_last());
        assert forall|i: int| 0 <= i < raw_split(s).len() implies !(#[trigger] raw_split(s)[i]).contains('\n') by {
            if s.last() == '\n' {
                let q = p.update(p.len() - 1, strip_cr(p.last())).push(Seq::<char>::empty());
                if i == p.len() {
                    assert(q[i] =~= Seq::<char>::empty());
                } else if i == p.len() - 1 {
                    assert(q[i] == strip_cr(p.last()));
                    assert(!p.last().contains('\n'));
                    if strip_cr(p.last()).contains('\n') {
                        let j = choose|j: int| 0 <= j < strip_cr(p.last()).len() && strip_cr(p.last())[j] == '\n';
                        assert(p.last()[j] == '\n');
                    }
                } else {
                    assert(q[i] == p[i]);
                }
            } else {
                let q = p.update(p.len() - 1, p.last().push(s.last()));
                if i == p.len() - 1 {
                    assert(q[i] == p.last().push(s.last()));
                    if p.last().push(s.last()).contains('\n') {
                        let j = choose|j: int|
                            0 <= j < p.last().push(s.last()).len() && p.last().push(s.last())[j] == '\n';
                        if j < p.last().len() {
                            assert(p.last()[j] == '\n');
                        }
                    }
                } else {
                    assert(q[i] == p[i]);
                }
            }
        }
    }
}

pub proof fn lemma_split_lines_wf(s: Seq<char>)
    ensures
        split_lines(s).len() >= 1,
        forall|i: int| 0 <= i < split_lines(s).len() ==> !(#[trigger] split_lines(s)[i]).contains('\n'),
{
    lemma_raw_split_len(s);
    lemma_raw_split_no_breaks(s);
}

/// In-memory owner of a document's text as an ordered sequence of lines.
/// The line list is never empty, and no line holds a line break.
pub struct Buffer {
    /// Identifier of the external source the text was loaded from; absent
    /// for a scratch buffer.
    pub source: Option<String>,
    /// The text, one entry per line, without line-break characters.
    pub lines: Vec<Vec<char>>,
}

impl Buffer {
    pub open spec fn text(self) -> Seq<Seq<char>> {
        text_of(self.lines@)
    }

    /// A buffer always has at least one (possibly empty) line.
    pub open spec fn wf(self) -> bool {
        self.text().len() > 0
    }

    /// Build a buffer from the full content of a source, split into lines,
    /// or with a single empty line when there is no content to load.
    pub fn new(source: Option<String>, content: Option<Vec<char>>) -> (b: Buffer)
        ensures
            b.wf(),
            b.source == source,
            (match content {
                Some(c) => b.text() == split_lines(c@),
                None => b.text() == seq![Seq::<char>::empty()],
            }),
            forall|i: int| 0 <= i < b.text().len() ==> !(#[trigger] b.text()[i]).contains('\n'),
    {
        let lines = match content {
            Some(c) => {
                proof {
                    lemma_split_lines_wf(c@);
                }
                split_content(&c)
            },
            None => {
                let mut l: Vec<Vec<char>> = Vec::new();
                l.push(Vec::new());
                proof {
                    assert(text_of(l@) =~= seq![Seq::<char>::empty()]);
                }
                l
            },
        };
        Buffer { source, lines }
    }

    /// Insert `ch` into the line at `row`, at character offset `col`.
    pub fn insert_char(&mut self, row: usize, col: usize, ch: char)
        requires
            row < old(self).text().len(),
            col <= old(self).text()[row as int].len(),
        ensures
            final(self).text() == old(self).text().update(
                row as int,
                old(self).text()[row as int].insert(col as int, ch),
            ),
            final(self).source == old(self).source,
    {
        self.lines[row].insert(col, ch);
        proof {
            assert(self.text() =~= old(self).text().update(
                row as int,
                old(self).text()[row as int].insert(col as int, ch),
            ));
        }
    }

    /// Remove the character before offset `col` in the line at `row`; at the
    /// start of the line there is nothing before the cursor and the buffer
    /// is left unchanged.
    pub fn remove_char_before(&mut self, row: usize, col: usize)
        requires
            row < old(self).text().len(),
            col <= old(self).text()[row as int].len(),
        ensures
            col > 0 ==> final(self).text() == old(self).text().update(
                row as int,
                old(self).text()[row as int].remove(col - 1),
            ),
            col == 0 ==> *final(self) == *old(self),
            final(self).source == old(self).source,
    {
        if col > 0 {
            self.lines[row].remove(col - 1);
            proof {
                assert(self.text() =~= old(self).text().update(
                    row as int,
                    old(self).text()[row as int].remove(col - 1),
                ));
            }
        }
    }

    /// Replace the line at `row` with its prefix before `col`, and insert a
    /// new line holding the suffix immediately after it.
    pub fn split_line(&mut self, row: usize, col: usize)
        requires
            row < old(self).text().len(),
            col <= old(self).text()[row as int].len(),
        ensures
            final(self).text() == old(self).text().update(
                row as int,
                old(self).text()[row as int].take(col as int),
            ).insert(row as int + 1, old(self).text()[row as int].skip(col as int)),
            final(self).source == old(self).source,
    {
        let line_len = self.lines[row].len();
        let mut suffix: Vec<char> = Vec::new();
        let mut i: usize = col;
        while i < line_len
            invariant
                col <= i <= line_len,
                row < self.lines@.len(),
                line_len == self.lines@[row as int]@.len(),
                self == old(self),
                suffix@ == self.lines@[row as int]@.subrange(col as int, i as int),
            decreases line_len - i,
        {
            let ch = self.lines[row][i];
            suffix.push(ch);
            proof {
                assert(suffix@ =~= self.lines@[row as int]@.subrange(col as int, i + 1));
            }
            i += 1;
        }
        self.lines[row].truncate(col);
        let count = self.lines.len();
        self.lines.insert(row + 1, suffix);
        proof {
            assert(old(self).text()[row as int].skip(col as int) =~= old(self).lines@[row as int]@.subrange(
                col as int,
                line_len as int,
            ));
            assert(self.text() =~= old(self).text().update(
                row as int,
                old(self).text()[row as int].take(col as int),
            ).insert(row as int + 1, old(self).text()[row as int].skip(col as int)));
        }
    }
}

/// Split loaded content into the buffer's lines, walking the characters
/// once and closing a line at each line feed.
fn split_content(content: &Vec<char>) -> (lines: Vec<Vec<char>>)
    ensures
        text_of(lines@) == split_lines(content@),
{
    let mut lines: Vec<Vec<char>> = Vec::new();
    let mut cur: Vec<char> = Vec::new();
    let n = content.len();
    let mut i: usize = 0;
    while i < n
        invariant
            i <= n,
            n == content@.len(),
            text_of(lines@).push(cur@) == raw_split(content@.take(i as int)),
        decreases n - i,
    {
        proof {
            assert(content@.take(i as int) =~= content@.take(i + 1).drop_last());
            lemma_raw_split_len(content@.take(i as int));
        }
        let ghost prev = raw_split(content@.take(i as int));
        let c = content[i];
        if c == '\n' {
            if cur.len() > 0 && cur[cur.len() - 1] == '\r' {
                cur.pop();
                proof {
                    assert(cur@ =~= strip_cr(prev.last()));
                }
            }
            proof {
                assert(cur@ =~= strip_cr(prev.last()));
            }
            lines.push(cur);
            cur = Vec::new();
            proof {
                assert(text_of(lines@).push(cur@) =~= prev.update(
                    prev.len() - 1,
                    strip_cr(prev.last()),
                ).push(Seq::<char>::empty()));
            }
        } else {
            cur.push(c);
            proof {
                assert(text_of(lines@).push(cur@) =~= prev.update(prev.len() - 1, prev.last().push(c)));
            }
        }
        i += 1;
    }
    proof {
        assert(content@.take(n as int) =~= content@);
    }
    if lines.len() == 0 || cur.len() > 0 {
        lines.push(cur);
        proof {
            assert(text_of(lines@) =~= raw_split(content@));
        }
    } else {
        proof {
            assert(text_of(lines@) =~= raw_split(content@).drop_last());
        }
    }
    lines
}

} // verus!

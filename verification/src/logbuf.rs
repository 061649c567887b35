use vstd::prelude::*;
use vstd::string::StringExecFns;

verus! {

/// The concatenation of a sequence of lines into one text.
pub open spec fn concat_lines(lines: Seq<Seq<char>>) -> Seq<char>
    decreases lines.len(),
{
    if lines.len() == 0 {
        Seq::empty()
    } else {
        concat_lines(lines.drop_last()) + lines.last()
    }
}

/// Append-only store of the ingested log: the raw text as one string beside
/// the same text kept line by line. Lines are never edited or removed, so an
/// index once valid stays valid and its content never changes.
pub struct LogBuf {
    raw: String,
    tmp_raw: Vec<String>,
}

impl LogBuf {
    /// The stored lines, each as its sequence of characters.
    pub closed spec fn lines_view(self) -> Seq<Seq<char>> {
        self.tmp_raw@.map_values(|s: String| s@)
    }

    /// The raw log text.
    pub closed spec fn raw_view(self) -> Seq<char> {
        self.raw@
    }

    /// The raw text is exactly the concatenation of the stored lines.
    pub open spec fn wf(self) -> bool {
        self.raw_view() == concat_lines(self.lines_view())
    }

    pub fn new() -> (b: LogBuf)
        ensures
            b.wf(),
            b.lines_view() == Seq::<Seq<char>>::empty(),
    {
        let b = LogBuf { raw: String::new(), tmp_raw: Vec::new() };
        proof {
            assert(b.lines_view() =~= Seq::<Seq<char>>::empty());
        }
        b
    }

    /// How many lines have been stored. Monotonically non-decreasing.
    pub fn len(&self) -> (n: usize)
        ensures
            n == self.lines_view().len(),
    {
        self.tmp_raw.len()
    }

    /// Appends one line. Readers see the line only as a whole: the new state
    /// holds every old line unchanged plus `data` at the end.
    pub fn write(&mut self, data: String)
        requires
            old(self).wf(),
        ensures
            final(self).wf(),
            final(self).lines_view() == old(self).lines_view().push(data@),
            final(self).raw_view() == old(self).raw_view() + data@,
    {
        self.raw.append(data.as_str());
        self.tmp_raw.push(data);
        proof {
            assert(self.lines_view() =~= old(self).lines_view().push(data@));
            assert(self.lines_view().drop_last() =~= old(self).lines_view());
            assert(self.lines_view().last() == data@);
        }
    }

    /// The raw log text: the concatenation of every line stored so far.
    pub fn read(&self) -> (r: &String)
        ensures
            r@ == self.raw_view(),
    {
        &self.raw
    }

    /// The stored lines.
    pub fn tmp_read(&self) -> (r: &Vec<String>)
        ensures
            r@.len() == self.lines_view().len(),
            forall|i: int| 0 <= i < r@.len() ==> r@[i]@ == self.lines_view()[i],
    {
        &self.tmp_raw
    }

    /// One stored line.
    pub fn get(&self, i: usize) -> (r: &String)
        requires
            i < self.lines_view().len(),
        ensures
            r@ == self.lines_view()[i as int],
    {
        &self.tmp_raw[i]
    }

    /// A copy of the lines in `[start, end)`, with `end` clamped to the line
    /// count and `start` clamped to `end`.
    pub fn get_range(&self, start: usize, end: usize) -> (r: Vec<String>)
        ensures
            ({
                let e = if end <= self.lines_view().len() {
                    end as int
                } else {
                    self.lines_view().len() as int
                };
                let s = if start as int <= e {
                    start as int
                } else {
                    e
                };
                &&& r@.len() == e - s
                &&& forall|i: int| 0 <= i < r@.len() ==> r@[i]@ == self.lines_view()[s + i]
            }),
    {
        let len = self.tmp_raw.len();
        let e = if end <= len {
            end
        } else {
            len
        };
        let s = if start <= e {
            start
        } else {
            e
        };
        let mut r: Vec<String> = Vec::new();
        let mut i = s;
        while i < e
            invariant
                s <= i <= e <= self.lines_view().len(),
                r@.len() == i - s,
                forall|k: int| 0 <= k < r@.len() ==> r@[k]@ == self.lines_view()[s + k],
            decreases e - i,
        {
            r.push(self.tmp_raw[i].clone());
            i = i + 1;
        }
        r
    }
}

} // verus!

use vstd::prelude::*;

verus! {

/// The most diagnostic lines the monitor reads from a grab process before it
/// classifies the event.
pub const DIAGNOSTIC_LINE_CAP: usize = 5;

/// The lines joined by single newlines, with no trailing newline.
pub open spec fn joined(lines: Seq<Seq<char>>) -> Seq<char>
    decreases lines.len(),
{
    if lines.len() == 0 {
        Seq::empty()
    } else if lines.len() == 1 {
        lines[0]
    } else {
        joined(lines.drop_last()) + seq!['\n'] + lines.last()
    }
}

/// The text of each line.
pub open spec fn line_texts(lines: Seq<String>) -> Seq<Seq<char>> {
    lines.map_values(|l: String| l@)
}

/// The first diagnostic lines of a grab process, at most `DIAGNOSTIC_LINE_CAP`
/// of them, in the order they were read.
pub struct DiagnosticCapture {
    lines: Vec<String>,
}

impl DiagnosticCapture {
    /// The text of the lines captured so far.
    pub closed spec fn lines(&self) -> Seq<Seq<char>> {
        line_texts(self.lines@)
    }

    pub closed spec fn wf(&self) -> bool {
        self.lines@.len() <= DIAGNOSTIC_LINE_CAP
    }

    pub fn new() -> (r: DiagnosticCapture)
        ensures
            r.wf(),
            r.lines() == Seq::<Seq<char>>::empty(),
    {
        let r = DiagnosticCapture { lines: Vec::new() };
        assert(r.lines() =~= Seq::<Seq<char>>::empty());
        r
    }

    /// Whether the capture has reached its cap and reads no more.
    pub fn is_full(&self) -> (r: bool)
        requires
            self.wf(),
        ensures
            r == (self.lines().len() == DIAGNOSTIC_LINE_CAP),
    {
        self.lines.len() == DIAGNOSTIC_LINE_CAP
    }

    /// Records one more line; a line that arrives after the cap is ignored.
    pub fn push(&mut self, line: String)
        requires
            old(self).wf(),
        ensures
            final(self).wf(),
            old(self).lines().len() < DIAGNOSTIC_LINE_CAP ==> final(self).lines() == old(
                self,
            ).lines().push(line@),
            old(self).lines().len() >= DIAGNOSTIC_LINE_CAP ==> final(self).lines() == old(
                self,
            ).lines(),
    {
        if self.lines.len() < DIAGNOSTIC_LINE_CAP {
            let ghost before = self.lines@;
            self.lines.push(line);
            assert(line_texts(self.lines@) =~= line_texts(before).push(line@));
        }
    }

    /// The captured lines joined by newlines.
    pub fn text(&self) -> (r: String)
        requires
            self.wf(),
        ensures
            r@ == joined(self.lines()),
    {
        let mut r = String::new();
        let mut i: usize = 0;
        while i < self.lines.len()
            invariant
                i <= self.lines@.len(),
                r@ == joined(line_texts(self.lines@).take(i as int)),
            decreases self.lines@.len() - i,
        {
            let ghost prefix = line_texts(self.lines@).take(i as int);
            let ghost next = line_texts(self.lines@).take(i + 1);
            assert(next.drop_last() =~= prefix);
            if i > 0 {
                r.append("\n");
                proof {
                    reveal_strlit("\n");
                }
            }
            r.append(self.lines[i].as_str());
            i = i + 1;
            assert(r@ =~= joined(next));
        }
        assert(line_texts(self.lines@).take(i as int) =~= self.lines());
        r
    }
}

} // verus!

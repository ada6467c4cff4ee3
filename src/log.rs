//! The sink that collects per-record failure reports.
use vstd::prelude::*;

verus! {

/// `\n---\n`: ends a message and writes the divider line.
pub open spec fn divider() -> Seq<u8> {
    seq![0x0au8, 0x2du8, 0x2du8, 0x2du8, 0x0au8]
}

/// The text of a log holding `entries`: each message followed by a line
/// holding exactly `---`.
pub open spec fn rendered(entries: Seq<Seq<u8>>) -> Seq<u8>
    decreases entries.len(),
{
    if entries.len() == 0 {
        Seq::empty()
    } else {
        rendered(entries.drop_last()) + entries.last() + divider()
    }
}

/// An append-only list of failure messages, passed to the decoders and
/// writers that report to it. Its owner writes `render()` out once, at the
/// end of the run.
pub struct LogSink {
    entries: Vec<Vec<u8>>,
}

impl View for LogSink {
    type V = Seq<Seq<u8>>;

    closed spec fn view(&self) -> Seq<Seq<u8>> {
        self.entries@.map_values(|e: Vec<u8>| e@)
    }
}

impl LogSink {
    /// An empty log.
    pub fn new() -> (r: LogSink)
        ensures
            r@ == Seq::<Seq<u8>>::empty(),
    {
        let r = LogSink { entries: Vec::new() };
        assert(r@ =~= Seq::<Seq<u8>>::empty());
        r
    }

    /// Appends one message.
    pub fn record(&mut self, message: Vec<u8>)
        ensures
            final(self)@ == old(self)@.push(message@),
    {
        self.entries.push(message);
        assert(self@ =~= old(self)@.push(message@));
    }

    /// The number of messages recorded.
    pub fn len(&self) -> (r: usize)
        ensures
            r == self@.len(),
    {
        self.entries.len()
    }

    /// The message at `i`.
    pub fn entry(&self, i: usize) -> (r: &Vec<u8>)
        requires
            i < self@.len(),
        ensures
            r@ == self@[i as int],
    {
        &self.entries[i]
    }

    /// The log's text: every message followed by a `---` divider line.
    pub fn render(&self) -> (r: Vec<u8>)
        ensures
            r@ == rendered(self@),
    {
        let mut out: Vec<u8> = Vec::new();
        let mut i: usize = 0;
        while i < self.entries.len()
            invariant
                i <= self@.len(),
                self@.len() == self.entries@.len(),
                out@ == rendered(self@.subrange(0, i as int)),
            decreases self@.len() - i,
        {
            let e = &self.entries[i];
            let mut j: usize = 0;
            let ghost start = out@;
            while j < e.len()
                invariant
                    j <= e@.len(),
                    out@ == start + e@.subrange(0, j as int),
                decreases e@.len() - j,
            {
                out.push(e[j]);
                assert(out@ =~= start + e@.subrange(0, j as int + 1));
                j = j + 1;
            }
            out.push(0x0a);
            out.push(0x2d);
            out.push(0x2d);
            out.push(0x2d);
            out.push(0x0a);
            proof {
                let t = self@.subrange(0, i as int + 1);
                assert(t.drop_last() =~= self@.subrange(0, i as int));
                assert(e@.subrange(0, e@.len() as int) =~= e@);
                assert(t.last() == e@);
                assert(out@ =~= rendered(t));
            }
            i = i + 1;
        }
        assert(self@.subrange(0, self@.len() as int) =~= self@);
        out
    }
}

} // verus!

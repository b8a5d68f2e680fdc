//! Splitting log data into lines: a streaming byte splitter for captured
//! output, `str::lines` on text, newline counting, and the streaming scan
//! that finds where the last `n` lines of a log start.

use vstd::prelude::*;
use crate::pattern::{lossy_text, utf8_lossy};
use crate::text::{string_from_range, chars_of};
use crate::logs::diff_start;

verus! {

broadcast use vstd::string::group_string_axioms;

/// The newline byte.
pub open spec fn nl() -> u8 {
    10u8
}

/// `d` holds no newline byte.
pub open spec fn newline_free(d: Seq<u8>) -> bool {
    forall|i: int| 0 <= i < d.len() ==> #[trigger] d[i] != nl()
}

/// The lines `ls`, each followed by a newline.
pub open spec fn join_lines(ls: Seq<Seq<u8>>) -> Seq<u8>
    decreases ls.len(),
{
    if ls.len() == 0 {
        seq![]
    } else {
        join_lines(ls.drop_last()) + ls.last().push(nl())
    }
}

/// Splits a byte stream into newline-terminated lines as it arrives; bytes
/// after the last newline wait for more input.
pub struct LineSplitter {
    pending: Vec<u8>,
    emitted: Ghost<Seq<Seq<u8>>>,
    seen: Ghost<Seq<u8>>,
}

impl LineSplitter {
    /// All bytes fed so far.
    pub closed spec fn seen(&self) -> Seq<u8> {
        self.seen@
    }

    /// All complete lines handed out so far (without their newlines).
    pub closed spec fn emitted(&self) -> Seq<Seq<u8>> {
        self.emitted@
    }

    /// The bytes after the last newline.
    pub closed spec fn pending(&self) -> Seq<u8> {
        self.pending@
    }

    /// The lines handed out and the pending bytes make up exactly the bytes
    /// fed, and no line holds a newline. This determines the split uniquely.
    pub open spec fn inv(&self) -> bool {
        &&& join_lines(self.emitted()) + self.pending() == self.seen()
        &&& newline_free(self.pending())
        &&& forall|i: int| 0 <= i < self.emitted().len() ==> newline_free(#[trigger] self.emitted()[i])
    }

    /// A splitter that has seen nothing.
    pub fn new() -> (s: Self)
        ensures
            s.inv(),
            s.seen() == Seq::<u8>::empty(),
            s.emitted() == Seq::<Seq<u8>>::empty(),
    {
        let s = LineSplitter { pending: Vec::new(), emitted: Ghost(Seq::empty()), seen: Ghost(Seq::empty()) };
        assert(join_lines(s.emitted@) + s.pending@ =~= s.seen@);
        s
    }

    /// Feeds a chunk; returns the lines it completes, in order.
    pub fn feed(&mut self, chunk: &[u8]) -> (r: Vec<Vec<u8>>)
        requires
            old(self).inv(),
        ensures
            final(self).inv(),
            final(self).seen() == old(self).seen() + chunk@,
            final(self).emitted() == old(self).emitted() + r@.map_values(|l: Vec<u8>| l@),
    {
        let mut out: Vec<Vec<u8>> = Vec::new();
        let mut i: usize = 0;
        let ghost seen0 = self.seen@;
        let ghost em0 = self.emitted@;
        while i < chunk.len()
            invariant
                i <= chunk.len(),
                self.inv(),
                self.seen@ == seen0 + chunk@.take(i as int),
                self.emitted@ == em0 + out@.map_values(|l: Vec<u8>| l@),
            decreases chunk.len() - i,
        {
            let b = chunk[i];
            let ghost em_before = self.emitted@;
            let ghost out_before = out@;
            if b == 10u8 {
                let mut line: Vec<u8> = Vec::new();
                std::mem::swap(&mut line, &mut self.pending);
                proof {
                    let ls = em_before.push(line@);
                    assert(ls.drop_last() =~= em_before);
                    assert(join_lines(ls) == join_lines(em_before) + line@.push(nl()));
                    self.emitted@ = ls;
                    self.seen@ = self.seen@.push(b);
                    assert(chunk@.take(i + 1) =~= chunk@.take(i as int).push(b));
                    assert(join_lines(self.emitted@) + self.pending@ =~= self.seen@);
                    assert forall|k: int| 0 <= k < self.emitted@.len() implies newline_free(
                        #[trigger] self.emitted@[k],
                    ) by {
                        if k < em_before.len() {
                            assert(self.emitted@[k] == em_before[k]);
                        }
                    }
                }
                out.push(line);
                proof {
                    assert(out@.map_values(|l: Vec<u8>| l@) =~= out_before.map_values(
                        |l: Vec<u8>| l@,
                    ).push(out@.last()@));
                    assert(self.emitted@ =~= em0 + out@.map_values(|l: Vec<u8>| l@));
                }
            } else {
                self.pending.push(b);
                proof {
                    self.seen@ = self.seen@.push(b);
                    assert(chunk@.take(i + 1) =~= chunk@.take(i as int).push(b));
                    assert(join_lines(self.emitted@) + self.pending@ =~= self.seen@);
                }
            }
            i = i + 1;
        }
        assert(chunk@.take(chunk@.len() as int) =~= chunk@);
        out
    }

    /// Ends the stream: the bytes after the last newline, if any.
    pub fn finish(self) -> (r: Option<Vec<u8>>)
        requires
            self.inv(),
        ensures
            match r {
                Some(p) => p@ == self.pending() && p@.len() > 0,
                None => self.pending().len() == 0,
            },
    {
        if self.pending.len() > 0 {
            Some(self.pending)
        } else {
            None
        }
    }
}

/// Number of newline bytes in `d`.
pub open spec fn count_nl(d: Seq<u8>) -> nat
    decreases d.len(),
{
    if d.len() == 0 {
        0
    } else {
        count_nl(d.drop_last()) + if d.last() == nl() {
            1nat
        } else {
            0nat
        }
    }
}

proof fn lemma_count_nl_bound(d: Seq<u8>)
    ensures
        count_nl(d) <= d.len(),
    decreases d.len(),
{
    if d.len() > 0 {
        lemma_count_nl_bound(d.drop_last());
    }
}

/// Counts newline bytes.
pub fn count_newlines(d: &[u8]) -> (r: u64)
    ensures
        r == count_nl(d@),
{
    let mut c: u64 = 0;
    let mut i: usize = 0;
    while i < d.len()
        invariant
            i <= d.len(),
            c == count_nl(d@.take(i as int)),
            c <= i,
        decreases d.len() - i,
    {
        assert(d@.take(i + 1).drop_last() =~= d@.take(i as int));
        if d[i] == 10u8 {
            c = c + 1;
        }
        i = i + 1;
    }
    assert(d@.take(d@.len() as int) =~= d@);
    c
}

// ---------------------------------------------------------------------------
// Finding where the last n lines start
// ---------------------------------------------------------------------------

/// Offsets of all newline bytes in `d`, in order.
pub open spec fn nl_positions(d: Seq<u8>) -> Seq<int>
    decreases d.len(),
{
    if d.len() == 0 {
        seq![]
    } else if d.last() == nl() {
        nl_positions(d.drop_last()).push(d.len() - 1)
    } else {
        nl_positions(d.drop_last())
    }
}

/// The last `k` elements of `s` (all of them when there are fewer).
pub open spec fn keep_last(s: Seq<int>, k: nat) -> Seq<int> {
    if s.len() > k {
        s.skip(s.len() - k)
    } else {
        s
    }
}

/// The log ends inside a line: it is not empty and its last byte is not a
/// newline.
pub open spec fn ends_open(d: Seq<u8>) -> bool {
    d.len() > 0 && d.last() != nl()
}

/// The number of lines of `d` as `str::lines` counts them: one per newline,
/// plus the unterminated last line if there is one.
pub open spec fn line_total(d: Seq<u8>) -> nat {
    nl_positions(d).len() + if ends_open(d) {
        1nat
    } else {
        0nat
    }
}

/// Byte offset at which the last `n` lines of `d` begin: just after the
/// newline that ends line `m - n` of the `m` lines, or 0 when the log has no
/// more than `n` lines (the end of the log when `n` is 0).
pub open spec fn tail_start(d: Seq<u8>, n: nat) -> int {
    let p = nl_positions(d);
    let m = line_total(d);
    if m > n {
        if m - n - 1 < p.len() {
            p[m - n - 1] + 1
        } else {
            d.len() as int
        }
    } else {
        0
    }
}

proof fn lemma_nl_positions_bound(d: Seq<u8>)
    ensures
        forall|i: int| 0 <= i < nl_positions(d).len() ==> 0 <= #[trigger] nl_positions(d)[i] < d.len(),
    decreases d.len(),
{
    if d.len() > 0 {
        lemma_nl_positions_bound(d.drop_last());
        let p0 = nl_positions(d.drop_last());
        assert forall|i: int| 0 <= i < nl_positions(d).len() implies 0 <= #[trigger] nl_positions(d)[i] < d.len() by {
            if i < p0.len() {
                assert(nl_positions(d)[i] == p0[i]);
            }
        }
    }
}

proof fn lemma_nl_positions_len(d: Seq<u8>)
    ensures
        nl_positions(d).len() <= d.len(),
        ends_open(d) ==> nl_positions(d).len() < d.len(),
    decreases d.len(),
{
    if d.len() > 0 {
        lemma_nl_positions_len(d.drop_last());
    }
}

proof fn lemma_keep_last_push(s: Seq<int>, k: nat, x: int)
    requires
        k > 0,
    ensures
        keep_last(s.push(x), k) == (if keep_last(s, k).push(x).len() > k {
            keep_last(s, k).push(x).drop_first()
        } else {
            keep_last(s, k).push(x)
        }),
{
    let t = keep_last(s, k).push(x);
    if s.len() > k {
        assert(keep_last(s.push(x), k) =~= t.drop_first());
    } else if s.len() == k {
        assert(keep_last(s.push(x), k) =~= t.drop_first());
    } else {
        assert(keep_last(s.push(x), k) =~= t);
    }
}

proof fn lemma_positions_hold_newlines(d: Seq<u8>)
    ensures
        forall|i: int| 0 <= i < nl_positions(d).len() ==> d[#[trigger] nl_positions(d)[i]] == nl(),
    decreases d.len(),
{
    if d.len() > 0 {
        let d0 = d.drop_last();
        lemma_positions_hold_newlines(d0);
        lemma_nl_positions_bound(d0);
        let p0 = nl_positions(d0);
        assert forall|i: int| 0 <= i < nl_positions(d).len() implies d[#[trigger] nl_positions(d)[i]] == nl() by {
            if i < p0.len() {
                assert(nl_positions(d)[i] == p0[i]);
                assert(d[p0[i]] == d0[p0[i]]);
            }
        }
    }
}

proof fn lemma_count_is_positions(d: Seq<u8>)
    ensures
        count_nl(d) == nl_positions(d).len(),
    decreases d.len(),
{
    if d.len() > 0 {
        lemma_count_is_positions(d.drop_last());
    }
}

proof fn lemma_count_split(d: Seq<u8>, a: int)
    requires
        0 <= a <= d.len(),
    ensures
        count_nl(d) == count_nl(d.take(a)) + count_nl(d.skip(a)),
    decreases d.len(),
{
    if a == d.len() {
        assert(d.take(a) =~= d);
        assert(d.skip(a) =~= Seq::<u8>::empty());
    } else {
        lemma_count_split(d.drop_last(), a);
        assert(d.drop_last().take(a) =~= d.take(a));
        assert(d.skip(a).drop_last() =~= d.drop_last().skip(a));
        assert(d.skip(a).last() == d.last());
    }
}

proof fn lemma_count_before_position(d: Seq<u8>, j: int)
    requires
        0 <= j < nl_positions(d).len(),
    ensures
        count_nl(d.take(nl_positions(d)[j] + 1)) == j + 1,
    decreases d.len(),
{
    lemma_nl_positions_bound(d);
    let d0 = d.drop_last();
    let p0 = nl_positions(d0);
    lemma_count_is_positions(d0);
    lemma_nl_positions_bound(d0);
    if j < p0.len() {
        assert(nl_positions(d)[j] == p0[j]);
        lemma_count_before_position(d0, j);
        assert(d0.take(p0[j] + 1) =~= d.take(p0[j] + 1));
    } else {
        assert(d.last() == nl());
        assert(nl_positions(d)[j] == d.len() - 1);
        assert(d.take(d.len() as int) =~= d);
    }
}

/// The last `n` lines of a log are what follows `tail_start`: the bytes
/// from there hold exactly the smaller of `n` and the log's line count.
pub proof fn law_tail_start_keeps_last_lines(d: Seq<u8>, n: nat)
    ensures
        0 <= tail_start(d, n) <= d.len(),
        line_total(d.skip(tail_start(d, n))) == if line_total(d) < n {
            line_total(d)
        } else {
            n
        },
{
    let p = nl_positions(d);
    let m = line_total(d);
    let a = tail_start(d, n);
    lemma_nl_positions_bound(d);
    lemma_nl_positions_len(d);
    let s = d.skip(a);
    lemma_count_is_positions(s);
    lemma_count_is_positions(d);
    if m <= n {
        assert(s =~= d);
        assert(line_total(s) == m);
    } else if m - n - 1 < p.len() {
        let j = m - n - 1;
        assert(a == p[j] + 1);
        lemma_count_before_position(d, j);
        lemma_count_split(d, a);
        assert(count_nl(s) == p.len() - j - 1);
        if s.len() > 0 {
            assert(s.last() == d.last());
            assert(ends_open(s) == ends_open(d));
        } else {
            assert(a == d.len());
            lemma_positions_hold_newlines(d);
            assert(d[p[j]] == nl());
            assert(!ends_open(d));
        }
        assert(line_total(s) == n);
    } else {
        assert(s =~= Seq::<u8>::empty());
        assert(n == 0);
    }
}

/// Scans a log front to back, remembering the offsets of the last `n + 1`
/// newlines, so that the start of the last `n` lines is known at the end.
pub struct TailScan {
    n: usize,
    positions: Vec<u64>,
    pos: u64,
    count: u64,
    open: bool,
    seen: Ghost<Seq<u8>>,
}

impl TailScan {
    /// All bytes scanned so far.
    pub closed spec fn seen(&self) -> Seq<u8> {
        self.seen@
    }

    /// The number of lines asked for.
    pub closed spec fn lines_wanted(&self) -> nat {
        self.n as nat
    }

    /// The remembered newline offsets are the last `n + 1` of those seen.
    pub closed spec fn inv(&self) -> bool {
        &&& self.n + 2 <= usize::MAX
        &&& self.pos as int == self.seen@.len()
        &&& self.count as int == nl_positions(self.seen@).len()
        &&& self.open == ends_open(self.seen@)
        &&& self.positions@.map_values(|p: u64| p as int) == keep_last(
            nl_positions(self.seen@),
            (self.n + 1) as nat,
        )
    }

    /// A scan for the last `n` lines.
    pub fn new(n: usize) -> (s: Self)
        requires
            n + 2 <= usize::MAX,
        ensures
            s.inv(),
            s.seen() == Seq::<u8>::empty(),
            s.lines_wanted() == n,
    {
        let s = TailScan { n, positions: Vec::new(), pos: 0, count: 0, open: false, seen: Ghost(Seq::empty()) };
        assert(s.positions@.map_values(|p: u64| p as int) =~= keep_last(
            nl_positions(s.seen@),
            (n + 1) as nat,
        ));
        s
    }

    /// Scans the next chunk of the log.
    pub fn feed(&mut self, chunk: &[u8])
        requires
            old(self).inv(),
            old(self).seen().len() + chunk@.len() <= u64::MAX,
        ensures
            final(self).inv(),
            final(self).seen() == old(self).seen() + chunk@,
            final(self).lines_wanted() == old(self).lines_wanted(),
    {
        let mut i: usize = 0;
        let ghost seen0 = self.seen@;
        let ghost n0 = self.n;
        while i < chunk.len()
            invariant
                i <= chunk.len(),
                self.inv(),
                self.n == n0,
                self.seen@ == seen0 + chunk@.take(i as int),
                seen0.len() + chunk@.len() <= u64::MAX,
            decreases chunk.len() - i,
        {
            let b = chunk[i];
            let ghost d0 = self.seen@;
            let ghost d1 = d0.push(b);
            assert(d1.drop_last() =~= d0);
            let ghost k = (self.n + 1) as nat;
            proof {
                lemma_nl_positions_len(d0);
            }
            if b == 10u8 {
                self.count = self.count + 1;
                self.open = false;
                let ghost before = self.positions@.map_values(|p: u64| p as int);
                proof {
                    lemma_keep_last_push(nl_positions(d0), k, d0.len() as int);
                }
                self.positions.push(self.pos);
                assert(self.positions@.map_values(|p: u64| p as int) =~= before.push(d0.len() as int));
                if self.positions.len() > self.n + 1 {
                    let ghost t = self.positions@.map_values(|p: u64| p as int);
                    self.positions.remove(0);
                    assert(self.positions@.map_values(|p: u64| p as int) =~= t.drop_first());
                }
            } else {
                self.open = true;
            }
            proof {
                self.seen@ = d1;
                assert(chunk@.take(i + 1) =~= chunk@.take(i as int).push(b));
            }
            self.pos = self.pos + 1;
            i = i + 1;
        }
        assert(chunk@.take(chunk@.len() as int) =~= chunk@);
    }

    /// Byte offset at which the last `n` lines begin.
    pub fn start_offset(&self) -> (r: u64)
        requires
            self.inv(),
        ensures
            r as int == tail_start(self.seen(), self.lines_wanted()),
    {
        let ghost all = nl_positions(self.seen@);
        let ghost k = (self.n + 1) as nat;
        proof {
            lemma_nl_positions_len(self.seen@);
            lemma_nl_positions_bound(self.seen@);
        }
        let c = self.count;
        let m: u64 = if self.open { c + 1 } else { c };
        let n = self.n as u64;
        if m > n {
            let j = m - n - 1;
            if j < c {
                let kept = self.positions.len() as u64;
                assert(kept == keep_last(all, k).len());
                let idx = kept + j - c;
                let p = self.positions[idx as usize];
                assert(keep_last(all, k)[idx as int] == p as int);
                proof {
                    if all.len() > k {
                        assert(all.skip(all.len() - k)[idx as int] == all[j as int]);
                    }
                }
                assert(p < self.pos);
                p + 1
            } else {
                self.pos
            }
        } else {
            0
        }
    }

    /// The number of lines scanned (see `line_total`).
    pub fn line_count(&self) -> (r: u64)
        requires
            self.inv(),
        ensures
            r == line_total(self.seen()),
    {
        proof {
            lemma_nl_positions_len(self.seen@);
        }
        if self.open {
            self.count + 1
        } else {
            self.count
        }
    }
}

// ---------------------------------------------------------------------------
// str::lines
// ---------------------------------------------------------------------------

/// The newline-separated segments of `s` (one more than its newlines).
pub open spec fn segments(s: Seq<char>) -> Seq<Seq<char>>
    decreases s.len(),
{
    if s.len() == 0 {
        seq![seq![]]
    } else if s.last() == '\n' {
        segments(s.drop_last()).push(seq![])
    } else {
        let p = segments(s.drop_last());
        p.update(p.len() - 1, p.last().push(s.last()))
    }
}

/// A line without a trailing carriage return.
pub open spec fn strip_cr(l: Seq<char>) -> Seq<char> {
    if l.len() > 0 && l.last() == '\r' {
        l.drop_last()
    } else {
        l
    }
}

/// The lines of `s` as `str::lines` gives them: split at `\n`, a final line
/// ending does not start an empty line, and a trailing `\r` is removed.
pub open spec fn text_lines(s: Seq<char>) -> Seq<Seq<char>> {
    let segs = if s.len() == 0 {
        seq![]
    } else if s.last() == '\n' {
        segments(s).drop_last()
    } else {
        segments(s)
    };
    segs.map_values(|l: Seq<char>| strip_cr(l))
}

proof fn lemma_segments_len(s: Seq<char>)
    ensures
        segments(s).len() >= 1,
    decreases s.len(),
{
    if s.len() > 0 {
        lemma_segments_len(s.drop_last());
    }
}

fn strip_cr_string(v: &Vec<char>) -> (r: String)
    ensures
        r@ == strip_cr(v@),
{
    if v.len() > 0 && v[v.len() - 1] == '\r' {
        let r = string_from_range(v, 0, v.len() - 1);
        assert(v@.subrange(0, v.len() - 1) =~= v@.drop_last());
        r
    } else {
        let r = string_from_range(v, 0, v.len());
        assert(v@.subrange(0, v.len() as int) =~= v@);
        r
    }
}

/// Splits text into lines as `str::lines` does.
pub fn split_lines(s: &str) -> (r: Vec<String>)
    ensures
        r@.map_values(|l: String| l@) == text_lines(s@),
{
    let v = chars_of(s);
    let mut out: Vec<String> = Vec::new();
    let mut cur: Vec<char> = Vec::new();
    let mut i: usize = 0;
    // out holds all finished segments (cr-stripped); cur is the open one
    while i < v.len()
        invariant
            i <= v.len(),
            v@ == s@,
            segments(v@.take(i as int)).len() >= 1,
            out@.map_values(|l: String| l@) == segments(v@.take(i as int)).drop_last().map_values(
                |l: Seq<char>| strip_cr(l),
            ),
            cur@ == segments(v@.take(i as int)).last(),
        decreases v.len() - i,
    {
        let c = v[i];
        let ghost t0 = v@.take(i as int);
        let ghost t1 = v@.take(i + 1);
        assert(t1.drop_last() =~= t0);
        proof {
            lemma_segments_len(t0);
        }
        let ghost segs0 = segments(t0);
        let ghost outv0 = out@.map_values(|l: String| l@);
        if c == '\n' {
            let line = strip_cr_string(&cur);
            out.push(line);
            cur = Vec::new();
            proof {
                assert(segments(t1) == segs0.push(seq![]));
                assert(segments(t1).drop_last() =~= segs0);
                assert(segs0 =~= segs0.drop_last().push(segs0.last()));
                assert(out@.map_values(|l: String| l@) =~= outv0.push(strip_cr(segs0.last())));
                assert(segs0.map_values(|l: Seq<char>| strip_cr(l)) =~= segs0.drop_last().map_values(
                    |l: Seq<char>| strip_cr(l),
                ).push(strip_cr(segs0.last())));
            }
        } else {
            cur.push(c);
            proof {
                let p = segs0;
                assert(segments(t1) == p.update(p.len() - 1, p.last().push(c)));
                assert(segments(t1).drop_last() =~= p.drop_last());
            }
        }
        i = i + 1;
    }
    assert(v@.take(v@.len() as int) =~= v@);
    proof {
        lemma_segments_len(v@);
    }
    if v.len() > 0 && v[v.len() - 1] != '\n' {
        let line = strip_cr_string(&cur);
        let ghost outv0 = out@.map_values(|l: String| l@);
        out.push(line);
        proof {
            let segs = segments(v@);
            assert(segs =~= segs.drop_last().push(segs.last()));
            assert(out@.map_values(|l: String| l@) =~= outv0.push(strip_cr(segs.last())));
            assert(segs.map_values(|l: Seq<char>| strip_cr(l)) =~= segs.drop_last().map_values(
                |l: Seq<char>| strip_cr(l),
            ).push(strip_cr(segs.last())));
        }
    } else if v.len() == 0 {
        assert(segments(v@) =~= seq![seq![]]);
        assert(out@.map_values(|l: String| l@) =~= Seq::<Seq<char>>::empty());
    }
    out
}


// ---------------------------------------------------------------------------
// Lines of a log, byte by byte
// ---------------------------------------------------------------------------

/// The newline-separated byte segments of `d` (one more than its newlines).
pub open spec fn byte_segments(d: Seq<u8>) -> Seq<Seq<u8>>
    decreases d.len(),
{
    if d.len() == 0 {
        seq![seq![]]
    } else if d.last() == nl() {
        byte_segments(d.drop_last()).push(seq![])
    } else {
        let p = byte_segments(d.drop_last());
        p.update(p.len() - 1, p.last().push(d.last()))
    }
}

/// The lines of a log as bytes: its segments, without the empty one after
/// a final newline (none at all for an empty log).
pub open spec fn byte_lines(d: Seq<u8>) -> Seq<Seq<u8>> {
    if d.len() == 0 {
        seq![]
    } else if d.last() == nl() {
        byte_segments(d).drop_last()
    } else {
        byte_segments(d)
    }
}

/// The text of a stored line: its bytes decoded leniently, without a
/// trailing carriage return (as `str::lines` gives it for valid UTF-8).
pub open spec fn line_text(l: Seq<u8>) -> Seq<char> {
    strip_cr(lossy_text(l))
}

proof fn lemma_byte_segments_len(d: Seq<u8>)
    ensures
        byte_segments(d).len() == nl_positions(d).len() + 1,
    decreases d.len(),
{
    if d.len() > 0 {
        lemma_byte_segments_len(d.drop_last());
    }
}

/// A log has as many lines as `line_total` counts.
pub proof fn lemma_byte_lines_len(d: Seq<u8>)
    ensures
        byte_lines(d).len() == line_total(d),
{
    lemma_byte_segments_len(d);
}

proof fn lemma_segments_after_newline(d: Seq<u8>, j: int)
    requires
        0 <= j < nl_positions(d).len(),
    ensures
        byte_segments(d.skip(nl_positions(d)[j] + 1)) == byte_segments(d).skip(j + 1),
    decreases d.len(),
{
    let p = nl_positions(d);
    let a = p[j] + 1;
    let d0 = d.drop_last();
    let p0 = nl_positions(d0);
    lemma_nl_positions_bound(d);
    lemma_nl_positions_bound(d0);
    lemma_byte_segments_len(d0);
    lemma_byte_segments_len(d);
    if a == d.len() {
        assert(d.skip(a) =~= Seq::<u8>::empty());
        assert(j == p.len() - 1) by {
            if j < p.len() - 1 {
                assert(p[p.len() - 1] < d.len());
                lemma_positions_increase(d, j, p.len() - 1);
            }
        }
        if d.last() != nl() {
            assert(p == p0);
            assert(p0[j] < d0.len());
        }
        assert(byte_segments(d).skip(j + 1) =~= seq![seq![]]);
    } else {
        assert(j < p0.len() && p[j] == p0[j]) by {
            if j >= p0.len() {
                assert(d.last() == nl());
                assert(p[j] == d.len() - 1);
            } else {
                if d.last() == nl() {
                    assert(p == p0.push(d.len() - 1));
                } else {
                    assert(p == p0);
                }
            }
        }
        lemma_segments_after_newline(d0, j);
        let s = d.skip(a);
        assert(s.drop_last() =~= d0.skip(a));
        assert(s.last() == d.last());
        let S = byte_segments(d0);
        assert(S.skip(j + 1).len() > 0);
        if d.last() == nl() {
            assert(S.push(seq![]).skip(j + 1) =~= S.skip(j + 1).push(seq![]));
        } else {
            let T = S.skip(j + 1);
            assert(S.update(S.len() - 1, S.last().push(d.last())).skip(j + 1) =~= T.update(
                T.len() - 1,
                T.last().push(d.last()),
            ));
        }
    }
}

proof fn lemma_positions_increase(d: Seq<u8>, i: int, k: int)
    requires
        0 <= i < k < nl_positions(d).len(),
    ensures
        nl_positions(d)[i] < nl_positions(d)[k],
    decreases d.len(),
{
    let d0 = d.drop_last();
    let p0 = nl_positions(d0);
    lemma_nl_positions_bound(d0);
    if k < p0.len() {
        lemma_positions_increase(d0, i, k);
        if d.last() == nl() {
            assert(nl_positions(d) == p0.push(d.len() - 1));
        }
    } else {
        assert(nl_positions(d)[k] == d.len() - 1);
        assert(nl_positions(d)[i] == p0[i]);
    }
}

/// The bytes from `tail_start(d, n)` hold exactly the last `k` lines of the
/// log, `k` the smaller of `n` and its line count `m`: lines `m - k + 1`
/// to `m`.
pub proof fn law_tail_lines_are_the_last(d: Seq<u8>, n: nat)
    ensures
        ({
            let m = line_total(d);
            let k = if m < n { m } else { n };
            &&& byte_lines(d).len() == m
            &&& byte_lines(d.skip(tail_start(d, n))) == byte_lines(d).skip(m - k)
        }),
{
    let p = nl_positions(d);
    let m = line_total(d);
    let a = tail_start(d, n);
    lemma_byte_lines_len(d);
    lemma_nl_positions_len(d);
    lemma_nl_positions_bound(d);
    lemma_byte_segments_len(d);
    if m <= n {
        assert(d.skip(a) =~= d);
        assert(byte_lines(d).skip(0) =~= byte_lines(d));
    } else if m - n - 1 < p.len() {
        let j = m - n - 1;
        lemma_segments_after_newline(d, j);
        let s = d.skip(a);
        lemma_positions_hold_newlines(d);
        if s.len() > 0 {
            assert(s.last() == d.last());
            if d.last() == nl() {
                assert(byte_segments(d).skip(j + 1).drop_last() =~= byte_segments(d).drop_last().skip(j + 1));
            }
        } else {
            assert(d.last() == nl());
            assert(byte_segments(d).drop_last().skip(j + 1) =~= Seq::<Seq<u8>>::empty());
        }
    } else {
        assert(d.skip(a) =~= Seq::<u8>::empty());
        assert(byte_lines(d).skip(m as int) =~= Seq::<Seq<u8>>::empty());
    }
}

/// A line's text (see `line_text`).
fn text_of(seg: &[u8]) -> (r: String)
    ensures
        r@ == line_text(seg@),
{
    let t = utf8_lossy(seg);
    let v = chars_of(t.as_str());
    if v.len() > 0 && v[v.len() - 1] == '\r' {
        let r = string_from_range(&v, 0, v.len() - 1);
        assert(v@.subrange(0, v.len() - 1) =~= v@.drop_last());
        r
    } else {
        t
    }
}

/// The texts of the lines of a log (see `byte_lines` and `line_text`).
pub fn log_line_texts(d: &[u8]) -> (r: Vec<String>)
    ensures
        r@.map_values(|l: String| l@) == byte_lines(d@).map_values(|l: Seq<u8>| line_text(l)),
{
    let mut out: Vec<String> = Vec::new();
    let mut cur: Vec<u8> = Vec::new();
    let mut i: usize = 0;
    while i < d.len()
        invariant
            i <= d.len(),
            cur@ == byte_segments(d@.take(i as int)).last(),
            out@.map_values(|l: String| l@) == byte_segments(d@.take(i as int)).drop_last().map_values(
                |l: Seq<u8>| line_text(l),
            ),
        decreases d.len() - i,
    {
        let b = d[i];
        let ghost segs = byte_segments(d@.take(i as int));
        assert(d@.take(i + 1).drop_last() =~= d@.take(i as int));
        assert(d@.take(i + 1).last() == b);
        proof {
            lemma_byte_segments_len(d@.take(i as int));
        }
        if b == 10u8 {
            let ghost before = out@.map_values(|l: String| l@);
            let t = text_of(cur.as_slice());
            out.push(t);
            cur = Vec::new();
            assert(out@.map_values(|l: String| l@) =~= before.push(line_text(segs.last())));
            assert(segs.push(seq![]).drop_last() =~= segs);
            assert(segs.drop_last().map_values(|l: Seq<u8>| line_text(l)).push(line_text(segs.last()))
                =~= segs.map_values(|l: Seq<u8>| line_text(l)));
        } else {
            cur.push(b);
            let ghost t = segs.update(segs.len() - 1, segs.last().push(b));
            assert(t.drop_last() =~= segs.drop_last());
        }
        i = i + 1;
    }
    assert(d@.take(d.len() as int) =~= d@);
    let ghost segs = byte_segments(d@);
    proof {
        lemma_byte_segments_len(d@);
    }
    if cur.len() > 0 {
        let ghost before = out@.map_values(|l: String| l@);
        let t = text_of(cur.as_slice());
        out.push(t);
        assert(out@.map_values(|l: String| l@) =~= before.push(line_text(segs.last())));
        assert(segs.drop_last().map_values(|l: Seq<u8>| line_text(l)).push(line_text(segs.last()))
            =~= segs.map_values(|l: Seq<u8>| line_text(l)));
        assert(d@.len() > 0 && d@.last() != nl()) by {
            if d@.len() == 0 {
                assert(segs =~= seq![seq![]]);
            } else if d@.last() == nl() {
                assert(segs.last() =~= Seq::<u8>::empty());
            }
        }
    } else {
        assert(d@.len() == 0 || d@.last() == nl()) by {
            if d@.len() > 0 && d@.last() != nl() {
                let p = byte_segments(d@.drop_last());
                lemma_byte_segments_len(d@.drop_last());
                assert(segs == p.update(p.len() - 1, p.last().push(d@.last())));
                assert(segs.last() == p.last().push(d@.last()));
                assert(segs.last().len() > 0);
            }
        }
        proof {
            if d@.len() == 0 {
                assert(segs.drop_last() =~= Seq::<Seq<u8>>::empty());
            }
        }
    }
    out
}


/// What `tail` reads from the log `d` for the last `n` lines: the offset at
/// which they start, the number `m` of lines in the log, and the texts of the
/// last `k` lines, `k` the smaller of `n` and `m` (lines `m - k + 1` to `m`).
pub fn tail_window(d: &[u8], n: usize) -> (r: (u64, u64, Vec<String>))
    requires
        n + 2 <= usize::MAX,
        d@.len() <= u64::MAX,
    ensures
        r.0 == tail_start(d@, n as nat),
        r.1 == line_total(d@),
        ({
            let m = line_total(d@);
            let k = if m < n { m } else { n as nat };
            r.2@.map_values(|l: String| l@) == byte_lines(d@).skip(m - k).map_values(
                |l: Seq<u8>| line_text(l),
            )
        }),
{
    let mut scan = TailScan::new(n);
    scan.feed(d);
    assert(Seq::<u8>::empty() + d@ =~= d@);
    let start = scan.start_offset();
    let total = scan.line_count();
    proof {
        lemma_nl_positions_bound(d@);
        law_tail_lines_are_the_last(d@, n as nat);
    }
    let (_, rest) = d.split_at(start as usize);
    assert(rest@ =~= d@.skip(start as int));
    let texts = log_line_texts(rest);
    (start, total, texts)
}

/// Where `diff` starts reading a log of `len` bytes for a byte cursor: at the
/// cursor, or at the end when the cursor is at or past it.
pub open spec fn diff_from(len: nat, cursor: nat) -> nat {
    if cursor < len {
        cursor
    } else {
        len
    }
}

/// The lines `diff` reports for a byte cursor on the log `d`.
pub open spec fn diff_lines(d: Seq<u8>, cursor: nat) -> Seq<Seq<u8>> {
    byte_lines(d.skip(diff_from(d.len(), cursor) as int))
}

/// What `diff` reads from the log `d` for a byte cursor: the number of
/// newlines before where it starts (the lines already seen), the texts of the
/// lines from there on, and the new cursor, the size of the log.
pub fn diff_window(d: &[u8], cursor: u64) -> (r: (u64, Vec<String>, u64))
    requires
        d@.len() <= u64::MAX,
    ensures
        r.0 == count_nl(d@.take(diff_from(d@.len(), cursor as nat) as int)),
        r.1@.map_values(|l: String| l@) == diff_lines(d@, cursor as nat).map_values(
            |l: Seq<u8>| line_text(l),
        ),
        r.2 == d@.len(),
{
    let size = d.len() as u64;
    let start: usize = match diff_start(cursor, size) {
        Some(o) => o as usize,
        None => d.len(),
    };
    let (head, rest) = d.split_at(start);
    assert(head@ =~= d@.take(start as int));
    assert(rest@ =~= d@.skip(start as int));
    let before = count_newlines(head);
    let texts = log_line_texts(rest);
    (before, texts, size)
}

/// A second `diff` with the cursor the first one returned, on a log that has
/// not been written since, reports no line and keeps the cursor; so does any
/// cursor at or past the end of the log.
pub proof fn law_diff_at_end_is_empty(d: Seq<u8>, cursor: nat)
    requires
        cursor >= d.len(),
    ensures
        diff_lines(d, cursor) == Seq::<Seq<u8>>::empty(),
        diff_lines(d, d.len()) == Seq::<Seq<u8>>::empty(),
        diff_from(d.len(), cursor) == d.len(),
{
    assert(d.skip(d.len() as int) =~= Seq::<u8>::empty());
}

/// After a `diff` that ended at the close of a line, the next one reports
/// exactly the lines appended since, and counts the lines before them.
pub proof fn law_diff_reports_what_was_appended(d: Seq<u8>, e: Seq<u8>)
    requires
        d.len() == 0 || d.last() == nl(),
    ensures
        diff_lines(d + e, d.len()) == byte_lines(e),
        count_nl((d + e).take(diff_from((d + e).len(), d.len()) as int)) == line_total(d),
{
    let de = d + e;
    if e.len() > 0 {
        assert(de.skip(d.len() as int) =~= e);
        assert(de.take(d.len() as int) =~= d);
    } else {
        assert(de =~= d);
        assert(de.skip(d.len() as int) =~= e);
        assert(de.take(d.len() as int) =~= d);
    }
    lemma_count_is_positions(d);
}

} // verus!

//! The keyboard filter of an attached terminal: Ctrl+P followed by Ctrl+Q
//! detaches; every other byte, Ctrl+C included, goes to the job.

use vstd::prelude::*;

verus! {

/// Ctrl+P, the first byte of the detach sequence.
pub open spec fn escape_p() -> u8 {
    0x10
}

/// Ctrl+Q, the second byte of the detach sequence.
pub open spec fn escape_q() -> u8 {
    0x11
}

/// One input byte seen with a Ctrl+P pending or not: the bytes forwarded,
/// whether a Ctrl+P is pending afterwards, and whether to detach.
pub open spec fn detach_step(pending: bool, b: u8) -> (Seq<u8>, bool, bool) {
    if pending {
        if b == escape_q() {
            (seq![], false, true)
        } else {
            (seq![escape_p(), b], false, false)
        }
    } else if b == escape_p() {
        (seq![], true, false)
    } else {
        (seq![b], false, false)
    }
}

/// The input bytes `input` seen from the state `pending`: the bytes
/// forwarded, whether a Ctrl+P is pending at the end, and whether the
/// detach sequence was typed (nothing after it counts).
pub open spec fn detach_scan(pending: bool, input: Seq<u8>) -> (Seq<u8>, bool, bool)
    decreases input.len(),
{
    if input.len() == 0 {
        (seq![], pending, false)
    } else {
        let prev = detach_scan(pending, input.drop_last());
        if prev.2 {
            prev
        } else {
            let s = detach_step(prev.1, input.last());
            (prev.0 + s.0, s.1, s.2)
        }
    }
}

/// The state of the detach filter between reads.
#[derive(Debug, Clone, Copy, PartialEq, Eq, Structural)]
pub struct DetachFilter {
    pub ctrl_p_pressed: bool,
}

impl DetachFilter {
    /// A filter with nothing pending.
    pub fn new() -> (f: Self)
        ensures
            !f.ctrl_p_pressed,
    {
        DetachFilter { ctrl_p_pressed: false }
    }

    /// Filters one read of keyboard input: the bytes to forward, and
    /// whether the user asked to detach.
    pub fn feed(&mut self, input: &[u8]) -> (r: (Vec<u8>, bool))
        ensures
            ({
                let s = detach_scan(old(self).ctrl_p_pressed, input@);
                &&& r.0@ == s.0
                &&& r.1 == s.2
                &&& final(self).ctrl_p_pressed == s.1
            }),
    {
        let ghost p0 = self.ctrl_p_pressed;
        let mut out: Vec<u8> = Vec::new();
        let mut i: usize = 0;
        while i < input.len()
            invariant
                i <= input.len(),
                p0 == old(self).ctrl_p_pressed,
                ({
                    let s = detach_scan(p0, input@.take(i as int));
                    &&& out@ == s.0
                    &&& self.ctrl_p_pressed == s.1
                    &&& !s.2
                }),
            decreases input.len() - i,
        {
            let b = input[i];
            assert(input@.take(i + 1).drop_last() =~= input@.take(i as int));
            assert(input@.take(i + 1).last() == b);
            if self.ctrl_p_pressed {
                if b == 0x11u8 {
                    self.ctrl_p_pressed = false;
                    proof {
                        let prev = detach_scan(p0, input@.take(i as int));
                        assert(detach_step(prev.1, b) == (Seq::<u8>::empty(), false, true));
                        assert(prev.0 + Seq::<u8>::empty() =~= prev.0);
                        assert(detach_scan(p0, input@.take(i + 1)) == (out@, false, true));
                        lemma_detach_stays(p0, input@, i + 1);
                    }
                    return (out, true);
                } else {
                    out.push(0x10u8);
                    out.push(b);
                    self.ctrl_p_pressed = false;
                }
            } else if b == 0x10u8 {
                self.ctrl_p_pressed = true;
            } else {
                out.push(b);
            }
            i = i + 1;
        }
        assert(input@.take(input.len() as int) =~= input@);
        (out, false)
    }

    /// The bytes still owed when the input ends: a pending Ctrl+P.
    pub fn finish(&self) -> (r: Vec<u8>)
        ensures
            r@ == (if self.ctrl_p_pressed { seq![escape_p()] } else { Seq::<u8>::empty() }),
    {
        let mut out: Vec<u8> = Vec::new();
        if self.ctrl_p_pressed {
            out.push(0x10u8);
        }
        out
    }
}

proof fn lemma_detach_stays(p: bool, input: Seq<u8>, n: int)
    requires
        0 <= n <= input.len(),
        detach_scan(p, input.take(n)).2,
    ensures
        detach_scan(p, input) == detach_scan(p, input.take(n)),
    decreases input.len() - n,
{
    if n < input.len() {
        assert(input.take(n + 1).drop_last() =~= input.take(n));
        lemma_detach_stays(p, input, n + 1);
    } else {
        assert(input.take(n) =~= input);
    }
}

/// Keyboard input without Ctrl+P passes through unchanged and never
/// detaches, when no Ctrl+P is pending.
pub proof fn law_plain_input_passes_through(input: Seq<u8>)
    requires
        forall|i: int| 0 <= i < input.len() ==> input[i] != escape_p(),
    ensures
        detach_scan(false, input) == (input, false, false),
    decreases input.len(),
{
    if input.len() > 0 {
        let d = input.drop_last();
        law_plain_input_passes_through(d);
        assert(d.push(input.last()) =~= input);
    } else {
        assert(input =~= seq![]);
    }
}

/// Ctrl+P followed by any byte other than Ctrl+Q is forwarded as those two
/// bytes; Ctrl+P followed by Ctrl+Q detaches and forwards nothing.
pub proof fn law_escape_sequence(b: u8)
    ensures
        b != escape_q() ==> detach_scan(false, seq![escape_p(), b]) == (seq![escape_p(), b], false, false),
        detach_scan(false, seq![escape_p(), escape_q()]).2,
        detach_scan(false, seq![escape_p(), escape_q()]).0 == Seq::<u8>::empty(),
{
    let e = Seq::<u8>::empty();
    let one = seq![escape_p()];
    assert(one.drop_last() =~= e);
    assert(one.last() == escape_p());
    assert(detach_scan(false, e) == (e, false, false));
    assert(e + e =~= e);
    assert(detach_scan(false, one) == (e, true, false));
    let s = seq![escape_p(), b];
    assert(s.drop_last() =~= one);
    assert(s.last() == b);
    assert(e + seq![escape_p(), b] =~= seq![escape_p(), b]);
    if b != escape_q() {
        assert(detach_scan(false, s) == (seq![escape_p(), b], false, false));
    }
    let t = seq![escape_p(), escape_q()];
    assert(t.drop_last() =~= one);
    assert(t.last() == escape_q());
    assert(detach_scan(false, t) == (e, false, true));
}

} // verus!

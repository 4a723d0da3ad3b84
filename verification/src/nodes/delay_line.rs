//! A delay line: what is written comes back a fixed number of writes later.

use super::kinds::{clamp_count, clamped};
use super::planar::ChannelProcessor;
use vstd::prelude::*;

verus! {

/// The ring of one channel, and where the next value goes.
#[verifier::ext_equal]
pub struct Ring<T> {
    /// The values.
    pub buffer: Seq<T>,
    /// The slot that is written next.
    pub write_pos: int,
}

impl<T> Ring<T> {
    /// That the next slot is one of the ring's.
    pub open spec fn is_valid(self) -> bool {
        0 <= self.write_pos < self.buffer.len()
    }

    /// The value that was written `delay` writes ago.
    pub open spec fn tap(self, delay: int) -> T {
        self.buffer[(self.write_pos - delay) % (self.buffer.len() as int)]
    }

    /// The ring after a value is written.
    pub open spec fn written(self, value: T) -> Ring<T> {
        Ring {
            buffer: self.buffer.update(self.write_pos, value),
            write_pos: (self.write_pos + 1) % (self.buffer.len() as int),
        }
    }

    /// The ring after values are written in turn.
    pub open spec fn written_all(self, values: Seq<T>) -> Ring<T>
        decreases values.len(),
    {
        if values.len() == 0 {
            self
        } else {
            self.written_all(values.drop_last()).written(values.last())
        }
    }
}

/// A delay line with a ring for every channel.
pub struct DelayLine<T> {
    buffer: Vec<Vec<T>>,
    write_pos: Vec<usize>,
    delay: usize,
    cap: usize,
}

impl<T> DelayLine<T> {
    /// That all rings have the same length, and the delay is within it.
    pub closed spec fn is_wf(self) -> bool {
        &&& self.buffer@.len() == self.write_pos@.len()
        &&& 1 <= self.delay <= self.cap
        &&& forall|c: int|
            0 <= c < self.buffer@.len() ==> (#[trigger] self.buffer@[c])@.len() == self.cap
        &&& forall|c: int|
            0 <= c < self.write_pos@.len() ==> (#[trigger] self.write_pos@[c]) < self.cap
    }

    /// The delay, in samples.
    pub closed spec fn spec_delay(self) -> nat {
        self.delay as nat
    }

    /// Samples that a ring holds.
    pub closed spec fn spec_capacity(self) -> nat {
        self.cap as nat
    }
}

impl<T> View for DelayLine<T> {
    type V = Seq<Ring<T>>;

    closed spec fn view(&self) -> Seq<Ring<T>> {
        Seq::new(
            self.buffer@.len(),
            |c: int| Ring { buffer: self.buffer@[c]@, write_pos: self.write_pos@[c] as int },
        )
    }
}

impl<T: Copy> DelayLine<T> {
    /// A line of silent rings, one for each channel and at least one. A ring holds
    /// `max_delay` samples and at least one, and the delay is brought into that
    /// range.
    pub fn new(max_delay: usize, delay: usize, channels: u16, silence: T) -> (line: Self)
        ensures
            line.is_wf(),
            line.spec_capacity() == if max_delay == 0 {
                1
            } else {
                max_delay as nat
            },
            line.spec_delay() == clamped(delay as int, 1, line.spec_capacity() as int),
            line@ == Seq::new(
                if channels == 0 {
                    1
                } else {
                    channels as nat
                },
                |c: int|
                    Ring {
                        buffer: Seq::new(line.spec_capacity(), |i: int| silence),
                        write_pos: 0,
                    },
            ),
    {
        let cap: usize = if max_delay == 0 {
            1
        } else {
            max_delay
        };
        let ch: usize = if channels == 0 {
            1
        } else {
            channels as usize
        };
        let mut buffer: Vec<Vec<T>> = Vec::new();
        let mut write_pos: Vec<usize> = Vec::new();
        while buffer.len() < ch
            invariant
                buffer@.len() <= ch,
                buffer@.len() == write_pos@.len(),
                forall|c: int|
                    0 <= c < buffer@.len() ==> (#[trigger] buffer@[c])@ == Seq::new(
                        cap as nat,
                        |i: int| silence,
                    ),
                forall|c: int| 0 <= c < write_pos@.len() ==> #[trigger] write_pos@[c] == 0,
            decreases ch - buffer@.len(),
        {
            let mut ring: Vec<T> = Vec::new();
            while ring.len() < cap
                invariant
                    ring@.len() <= cap,
                    forall|i: int| 0 <= i < ring@.len() ==> #[trigger] ring@[i] == silence,
                decreases cap - ring@.len(),
            {
                ring.push(silence);
            }
            assert(ring@ =~= Seq::new(cap as nat, |i: int| silence));
            buffer.push(ring);
            write_pos.push(0);
        }
        let line = DelayLine { buffer, write_pos, delay: clamp_count(delay, 1, cap), cap };
        assert(line@ =~~= Seq::new(
            ch as nat,
            |c: int| Ring { buffer: Seq::new(cap as nat, |i: int| silence), write_pos: 0 },
        ));
        line
    }

    /// Channels that there is a ring for.
    pub fn channels(&self) -> (n: usize)
        ensures
            n == self@.len(),
    {
        self.buffer.len()
    }

    /// Samples that a ring holds.
    pub fn capacity(&self) -> (n: usize)
        ensures
            n == self.spec_capacity(),
    {
        self.cap
    }

    /// The slot that is written next.
    pub fn cursor(&self, ch: usize) -> (at: usize)
        requires
            self.is_wf(),
            ch < self@.len(),
        ensures
            at == self@[ch as int].write_pos,
            at < self.spec_capacity(),
    {
        self.write_pos[ch]
    }

    /// The samples of a slot and of the next one, round the ring, for reading in
    /// between them. There are none where the ring has no such slot.
    pub fn neighbours(&self, ch: usize, slot: usize) -> (pair: Option<(T, T)>)
        requires
            self.is_wf(),
            ch < self@.len(),
        ensures
            pair == if slot < self.spec_capacity() {
                let ring = self@[ch as int].buffer;
                Some((ring[slot as int], ring[(slot + 1) % (self.spec_capacity() as int)]))
            } else {
                None
            },
    {
        if slot >= self.cap {
            return None;
        }
        proof {
            lemma_next(slot as int, self.cap as int);
        }
        let next: usize = if slot + 1 == self.cap {
            0
        } else {
            slot + 1
        };
        Some((self.buffer[ch][slot], self.buffer[ch][next]))
    }

    /// The sample that the delay brings back.
    pub fn tap(&self, ch: usize) -> (x: T)
        requires
            self.is_wf(),
            ch < self@.len(),
        ensures
            x == self@[ch as int].tap(self.spec_delay() as int),
            1 <= self.spec_delay() <= self.spec_capacity(),
            self@[ch as int].is_valid(),
            self@[ch as int].buffer.len() == self.spec_capacity(),
    {
        let wp: usize = self.write_pos[ch];
        proof {
            lemma_back(wp as int, self.delay as int, self.cap as int);
        }
        let at: usize = if wp >= self.delay {
            wp - self.delay
        } else {
            wp + (self.cap - self.delay)
        };
        self.buffer[ch][at]
    }

    /// Writes a sample, in place of the oldest one.
    pub fn write(&mut self, ch: usize, value: T)
        requires
            old(self).is_wf(),
            ch < old(self)@.len(),
        ensures
            final(self).is_wf(),
            final(self)@ == old(self)@.update(ch as int, old(self)@[ch as int].written(value)),
            final(self).spec_delay() == old(self).spec_delay(),
            final(self).spec_capacity() == old(self).spec_capacity(),
    {
        let ghost before = *self;
        let wp: usize = self.write_pos[ch];
        proof {
            lemma_next(wp as int, self.cap as int);
        }
        set_slot(&mut self.buffer, ch, wp, value);
        let next: usize = if wp + 1 == self.cap {
            0
        } else {
            wp + 1
        };
        self.write_pos.set(ch, next);
        assert(self@ =~~= before@.update(ch as int, before@[ch as int].written(value)));
    }
}

/// Puts a value into a slot of a ring.
fn set_slot<T>(buffer: &mut Vec<Vec<T>>, ch: usize, slot: usize, value: T)
    requires
        ch < old(buffer)@.len(),
        slot < old(buffer)@[ch as int]@.len(),
    ensures
        final(buffer)@.len() == old(buffer)@.len(),
        final(buffer)@[ch as int]@ == old(buffer)@[ch as int]@.update(slot as int, value),
        forall|c: int|
            0 <= c < old(buffer)@.len() && c != ch ==> #[trigger] final(buffer)@[c] == old(
                buffer,
            )@[c],
{
    let mut ring: Vec<T> = Vec::new();
    core::mem::swap(&mut buffer[ch], &mut ring);
    ring.set(slot, value);
    core::mem::swap(&mut buffer[ch], &mut ring);
}

/// What comes out of the line is what the delay brings back. What goes in is
/// written.
impl<T: Copy> ChannelProcessor<T> for DelayLine<T> {
    type State = (Seq<Ring<T>>, nat);

    open spec fn wf(&self) -> bool {
        self.is_wf()
    }

    open spec fn state(&self) -> (Seq<Ring<T>>, nat) {
        (self@, self.spec_delay())
    }

    open spec fn channels_of(s: (Seq<Ring<T>>, nat)) -> usize {
        s.0.len() as usize
    }

    open spec fn next(s: (Seq<Ring<T>>, nat), ch: usize, x: T) -> ((Seq<Ring<T>>, nat), T) {
        ((s.0.update(ch as int, s.0[ch as int].written(x)), s.1), s.0[ch as int].tap(s.1 as int))
    }

    fn process_sample(&mut self, x: T, ch: usize) -> (y: T) {
        let y = self.tap(ch);
        self.write(ch, x);
        y
    }
}

/// What is written comes back after as many writes as the delay has samples.
pub proof fn law_writes_come_back<T>(ring: Ring<T>, delay: int, values: Seq<T>)
    requires
        ring.is_valid(),
        1 <= delay <= ring.buffer.len(),
        values.len() == delay,
    ensures
        ring.written_all(values).tap(delay) == values[0],
{
    lemma_written_all(ring, values);
    let cap = ring.buffer.len() as int;
    let end = ring.written_all(values).write_pos;
    vstd::arithmetic::div_mod::lemma_sub_mod_noop(ring.write_pos + delay, delay, cap);
    vstd::arithmetic::div_mod::lemma_sub_mod_noop(end, delay, cap);
    vstd::arithmetic::div_mod::lemma_mod_twice(ring.write_pos + delay, cap);
    assert((end - delay) % cap == (ring.write_pos + 0) % cap);
}

/// Writes go to the slots that follow the ring's position, round the ring.
proof fn lemma_written_all<T>(ring: Ring<T>, values: Seq<T>)
    requires
        ring.is_valid(),
        values.len() <= ring.buffer.len(),
    ensures
        ({
            let after = ring.written_all(values);
            let cap = ring.buffer.len() as int;
            &&& after.is_valid()
            &&& after.buffer.len() == cap
            &&& after.write_pos == (ring.write_pos + values.len()) % cap
            &&& forall|j: int|
                0 <= j < values.len() ==> after.buffer[#[trigger] ((ring.write_pos + j) % cap)]
                    == values[j]
        }),
    decreases values.len(),
{
    let cap = ring.buffer.len() as int;
    if values.len() == 0 {
        vstd::arithmetic::div_mod::lemma_small_mod(ring.write_pos as nat, cap as nat);
    } else {
        let rest = values.drop_last();
        lemma_written_all(ring, rest);
        let before = ring.written_all(rest);
        let after = before.written(values.last());
        vstd::arithmetic::div_mod::lemma_mod_bound(before.write_pos + 1, cap);
        vstd::arithmetic::div_mod::lemma_add_mod_noop_right(1, ring.write_pos + rest.len(), cap);
        assert forall|j: int| 0 <= j < values.len() implies after.buffer[#[trigger] ((ring.write_pos
            + j) % cap)] == values[j] by {
            vstd::arithmetic::div_mod::lemma_mod_bound(ring.write_pos + j, cap);
            if j < rest.len() {
                lemma_slots_differ(ring.write_pos, j, rest.len() as int, cap);
                assert(before.buffer[(ring.write_pos + j) % cap] == rest[j]);
            }
        }
    }
}

proof fn lemma_slots_differ(wp: int, j: int, k: int, cap: int)
    requires
        0 <= wp < cap,
        0 <= j < k < cap,
    ensures
        (wp + j) % cap != (wp + k) % cap,
{
    vstd::arithmetic::div_mod::lemma_fundamental_div_mod(wp + j, cap);
    vstd::arithmetic::div_mod::lemma_fundamental_div_mod(wp + k, cap);
    let a = (wp + j) / cap;
    let b = (wp + k) / cap;
    if (wp + j) % cap == (wp + k) % cap {
        assert(cap * b - cap * a == k - j);
        assert(false) by (nonlinear_arith)
            requires
                cap * b - cap * a == k - j,
                0 < k - j < cap,
        ;
    }
}

proof fn lemma_back(wp: int, delay: int, cap: int)
    requires
        0 <= wp < cap,
        1 <= delay <= cap,
    ensures
        (wp - delay) % cap == if wp >= delay {
            wp - delay
        } else {
            wp + cap - delay
        },
{
    if wp >= delay {
        vstd::arithmetic::div_mod::lemma_small_mod((wp - delay) as nat, cap as nat);
    } else {
        vstd::arithmetic::div_mod::lemma_fundamental_div_mod_converse(
            wp - delay,
            cap,
            -1,
            wp + cap - delay,
        );
    }
}

proof fn lemma_next(wp: int, cap: int)
    requires
        0 <= wp < cap,
    ensures
        (wp + 1) % cap == if wp + 1 == cap {
            0
        } else {
            wp + 1
        },
{
    if wp + 1 == cap {
        vstd::arithmetic::div_mod::lemma_mod_self_0(cap);
    } else {
        vstd::arithmetic::div_mod::lemma_small_mod((wp + 1) as nat, cap as nat);
    }
}

/// However much was written, what comes back is what was written as many writes ago as
/// the delay has samples.
pub proof fn law_every_write_comes_back<T>(ring: Ring<T>, delay: int, values: Seq<T>)
    requires
        ring.is_valid(),
        1 <= delay <= ring.buffer.len(),
        values.len() >= delay,
    ensures
        ring.written_all(values).tap(delay) == values[values.len() - delay],
{
    let head = values.take(values.len() - delay);
    let tail = values.skip(values.len() - delay);
    assert(head + tail =~= values);
    lemma_written_both(ring, head, tail);
    lemma_stays_valid(ring, head);
    law_writes_come_back(ring.written_all(head), delay, tail);
}

/// A ring that starts out silent stays silent until as much was written as the delay has
/// samples.
pub proof fn law_silence_comes_first<T>(ring: Ring<T>, delay: int, values: Seq<T>, silence: T)
    requires
        ring.is_valid(),
        1 <= delay <= ring.buffer.len(),
        values.len() < delay,
        forall|i: int| 0 <= i < ring.buffer.len() ==> #[trigger] ring.buffer[i] == silence,
    ensures
        ring.written_all(values).tap(delay) == silence,
{
    let cap = ring.buffer.len() as int;
    let n = values.len() as int;
    let end = ring.written_all(values).write_pos;
    lemma_written_all(ring, values);
    vstd::arithmetic::div_mod::lemma_sub_mod_noop(ring.write_pos + n, delay, cap);
    vstd::arithmetic::div_mod::lemma_sub_mod_noop(end, delay, cap);
    vstd::arithmetic::div_mod::lemma_mod_twice(ring.write_pos + n, cap);
    let slot = (end - delay) % cap;
    assert(slot == (ring.write_pos + n - delay) % cap);
    // The slot lies as far ahead of the position as the delay is short of the ring.
    let ahead = n - delay + cap;
    vstd::arithmetic::div_mod::lemma_mod_add_multiples_vanish(ring.write_pos + n - delay, cap);
    assert(slot == (ring.write_pos + ahead) % cap);
    vstd::arithmetic::div_mod::lemma_mod_bound(ring.write_pos + ahead, cap);
    lemma_untouched(ring, values, ahead);
}

proof fn lemma_stays_valid<T>(ring: Ring<T>, values: Seq<T>)
    requires
        ring.is_valid(),
    ensures
        ring.written_all(values).is_valid(),
        ring.written_all(values).buffer.len() == ring.buffer.len(),
    decreases values.len(),
{
    if values.len() > 0 {
        lemma_stays_valid(ring, values.drop_last());
        let before = ring.written_all(values.drop_last());
        vstd::arithmetic::div_mod::lemma_mod_bound(
            before.write_pos + 1,
            before.buffer.len() as int,
        );
    }
}

proof fn lemma_written_both<T>(ring: Ring<T>, a: Seq<T>, b: Seq<T>)
    ensures
        ring.written_all(a + b) == ring.written_all(a).written_all(b),
    decreases b.len(),
{
    if b.len() == 0 {
        assert(a + b =~= a);
    } else {
        assert((a + b).drop_last() =~= a + b.drop_last());
        lemma_written_both(ring, a, b.drop_last());
    }
}

/// A slot that lies further ahead than was written keeps its value.
proof fn lemma_untouched<T>(ring: Ring<T>, values: Seq<T>, ahead: int)
    requires
        ring.is_valid(),
        values.len() <= ahead < ring.buffer.len(),
    ensures
        ring.written_all(values).buffer[(ring.write_pos + ahead) % (ring.buffer.len() as int)]
            == ring.buffer[(ring.write_pos + ahead) % (ring.buffer.len() as int)],
    decreases values.len(),
{
    let cap = ring.buffer.len() as int;
    if values.len() > 0 {
        let rest = values.drop_last();
        lemma_untouched(ring, rest, ahead);
        lemma_written_all(ring, rest);
        lemma_slots_differ(ring.write_pos, rest.len() as int, ahead, cap);
        vstd::arithmetic::div_mod::lemma_mod_bound(ring.write_pos + ahead, cap);
    }
}

/// A sample that goes into the line moves the ring of its own channel on by one write, and
/// what comes out is what that ring held as many writes ago as the delay has samples. No
/// other ring changes, and the delay stays.
pub proof fn law_a_sample_goes_through_its_own_ring<T: Copy>(
    s: (Seq<Ring<T>>, nat),
    ch: usize,
    x: T,
    values: Seq<T>,
    start: Ring<T>,
    d: int,
)
    requires
        ch < s.0.len(),
        start.is_valid(),
        1 <= s.1 <= start.buffer.len(),
        values.len() >= s.1,
        s.0[ch as int] == start.written_all(values),
    ensures
        ({
            let (after, y) = <DelayLine<T> as ChannelProcessor<T>>::next(s, ch, x);
            &&& y == values[values.len() - s.1]
            &&& after.0[ch as int] == start.written_all(values.push(x))
            &&& after.0.len() == s.0.len()
            &&& 0 <= d < s.0.len() && d != ch ==> after.0[d] == s.0[d]
            &&& after.1 == s.1
        }),
{
    law_every_write_comes_back(start, s.1 as int, values);
    assert(values.push(x).drop_last() =~= values);
}

} // verus!

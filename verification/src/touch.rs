//! Decisions of the XPT2046 resistive touch driver: decoding a 12-bit
//! conversion result, the pressure test for "is the panel touched", and the
//! averaging of a position sample.
//!
//! The SPI transfers themselves are made by the caller; the sampling loop is
//! a state machine that tells the caller which reading to take next and gets
//! the reading back.

use vstd::prelude::*;

verus! {

/// Command byte that reads the Z1 pressure channel.
pub const CMD_READ_Z1: u8 = 0xB0;
/// Command byte that reads the Z2 pressure channel.
pub const CMD_READ_Z2: u8 = 0xC0;
/// Command byte that reads the X position channel.
pub const CMD_READ_X: u8 = 0xD0;
/// Command byte that reads the Y position channel.
pub const CMD_READ_Y: u8 = 0x90;

/// Raw position readings taken per sample.
pub const POSITION_SAMPLES: usize = 8;
/// Leading readings thrown away (resistive panels are noisy right after
/// contact).
pub const DISCARD_SAMPLES: usize = 2;

/// Empirical pressure threshold: `z1 + (4095 - z2)` reads near 0 when
/// untouched and rises sharply under pressure.
pub const PRESSURE_THRESHOLD: i32 = 600;

/// Decodes the two bytes clocked out after a command into the raw 12-bit
/// conversion result: it starts one bit after the command byte, MSB first,
/// and is followed by three padding bits, so it is the 16-bit big-endian
/// word shifted right by three, kept to its low 12 bits.
pub fn decode_reading(hi: u8, lo: u8) -> (v: u16)
    ensures
        v as int == ((hi as int * 256 + lo as int) / 8) % 4096,
        v <= 4095,
{
    let w: u16 = ((hi as u16) << 8u16) | (lo as u16);
    assert(w == hi as u16 * 256 + lo as u16) by (bit_vector)
        requires
            w == ((hi as u16) << 8u16) | (lo as u16),
    ;
    let v = (w >> 3u16) & 0x0FFFu16;
    assert(v == (w / 8) % 4096 && v <= 4095) by (bit_vector)
        requires
            v == (w >> 3u16) & 0x0FFFu16,
    ;
    v
}

/// Whether the pressure readings count as a touch.
pub open spec fn pressed(z1: int, z2: int) -> bool {
    z1 + (4095 - z2) > PRESSURE_THRESHOLD
}

/// Returns `true` if the Z1/Z2 pressure readings show enough pressure to
/// count as a touch.
pub fn is_pressed(z1: u16, z2: u16) -> (r: bool)
    ensures
        r == pressed(z1 as int, z2 as int),
{
    (z1 as i32) + (4095 - z2 as i32) > PRESSURE_THRESHOLD
}

/// What the sampling loop needs next.
#[derive(Clone, Copy, PartialEq, Eq, Debug)]
pub enum SampleAction {
    /// Check whether the panel is still touched and report it with
    /// [`PositionSampler::touch_checked`].
    CheckTouch,
    /// Read a raw `(x, y)` position and report it with
    /// [`PositionSampler::position_read`].
    ReadPosition,
    /// The sample is over: the averaged position, or `None` when the panel was
    /// not touched or was released part-way.
    Done(Option<(u16, u16)>),
}

/// Sum of the kept (non-discarded) x or y readings.
pub open spec fn kept_sum(rs: Seq<(u16, u16)>, x_axis: bool) -> int
    decreases rs.len(),
{
    if rs.len() == 0 {
        0
    } else {
        kept_sum(rs.drop_last(), x_axis) + if rs.len() - 1 >= DISCARD_SAMPLES {
            if x_axis { rs.last().0 as int } else { rs.last().1 as int }
        } else {
            0
        }
    }
}

/// The averaged position of a full run of readings: the mean of the kept
/// readings on each axis, rounded down.
pub open spec fn averaged(rs: Seq<(u16, u16)>) -> (u16, u16) {
    let kept = POSITION_SAMPLES - DISCARD_SAMPLES;
    ((kept_sum(rs, true) / kept) as u16, (kept_sum(rs, false) / kept) as u16)
}

/// The state of one position sample: an initial touch check, then for each
/// of the [`POSITION_SAMPLES`] readings a touch check followed by the reading.
pub struct PositionSampler {
    started: bool,
    taken: usize,
    sum_x: u32,
    sum_y: u32,
    kept: u32,
    readings: Ghost<Seq<(u16, u16)>>,
}

impl PositionSampler {
    /// The sampler's internal consistency: the running sums and count match
    /// the readings reported so far.
    pub closed spec fn wf(&self) -> bool {
        &&& self.taken <= POSITION_SAMPLES
        &&& self.readings@.len() == self.taken
        &&& self.sum_x == kept_sum(self.readings@, true)
        &&& self.sum_y == kept_sum(self.readings@, false)
        &&& self.kept == if self.taken >= DISCARD_SAMPLES { self.taken - DISCARD_SAMPLES } else { 0 }
    }

    /// The readings reported so far.
    pub closed spec fn reported(&self) -> Seq<(u16, u16)> {
        self.readings@
    }

    /// Whether the initial touch check has passed.
    pub closed spec fn is_started(&self) -> bool {
        self.started
    }

    /// A fresh sample; the first action is [`SampleAction::CheckTouch`].
    pub fn new() -> (s: Self)
        ensures
            s.wf(),
            !s.is_started(),
            s.reported().len() == 0,
    {
        PositionSampler { started: false, taken: 0, sum_x: 0, sum_y: 0, kept: 0, readings: Ghost(Seq::empty()) }
    }

    /// Reports the result of a touch check. A release ends the sample with
    /// no position; otherwise the initial check is followed by the first
    /// reading's check, and each later check by a position read.
    pub fn touch_checked(&mut self, touched: bool) -> (a: SampleAction)
        requires
            old(self).wf(),
        ensures
            final(self).wf(),
            final(self).reported() == old(self).reported(),
            !touched ==> a == SampleAction::Done(None),
            touched && !old(self).is_started() ==> a == SampleAction::CheckTouch && final(self).is_started(),
            touched && old(self).is_started() ==> a == SampleAction::ReadPosition && final(self).is_started(),
    {
        if !touched {
            return SampleAction::Done(None);
        }
        if !self.started {
            self.started = true;
            SampleAction::CheckTouch
        } else {
            SampleAction::ReadPosition
        }
    }

    /// Reports a raw position reading. The first [`DISCARD_SAMPLES`] readings
    /// are thrown away; after the last reading the sample ends with the
    /// averaged position, otherwise the next reading's touch check follows.
    pub fn position_read(&mut self, x: u16, y: u16) -> (a: SampleAction)
        requires
            old(self).wf(),
            old(self).is_started(),
            old(self).reported().len() < POSITION_SAMPLES,
        ensures
            final(self).wf(),
            final(self).is_started(),
            final(self).reported() == old(self).reported().push((x, y)),
            final(self).reported().len() < POSITION_SAMPLES ==> a == SampleAction::CheckTouch,
            final(self).reported().len() == POSITION_SAMPLES ==> a == SampleAction::Done(Some(averaged(final(self).reported()))),
    {
        let ghost old_rs = self.readings@;
        proof {
            lemma_kept_sum_bound(old_rs, true);
            lemma_kept_sum_bound(old_rs, false);
        }
        if self.taken >= DISCARD_SAMPLES {
            self.sum_x = self.sum_x + x as u32;
            self.sum_y = self.sum_y + y as u32;
            self.kept = self.kept + 1;
        }
        self.taken = self.taken + 1;
        self.readings = Ghost(old_rs.push((x, y)));
        proof {
            assert(self.readings@.drop_last() =~= old_rs);
        }
        if self.taken < POSITION_SAMPLES {
            return SampleAction::CheckTouch;
        }
        if self.kept == 0 {
            return SampleAction::Done(None);
        }
        proof {
            lemma_kept_sum_bound(self.readings@, true);
            lemma_kept_sum_bound(self.readings@, false);
        }
        SampleAction::Done(Some(((self.sum_x / self.kept) as u16, (self.sum_y / self.kept) as u16)))
    }
}

/// The kept sum of `n` readings is at most one full-scale reading per kept
/// reading.
proof fn lemma_kept_sum_bound(rs: Seq<(u16, u16)>, x_axis: bool)
    ensures
        0 <= kept_sum(rs, x_axis) <= 65535 * (if rs.len() >= DISCARD_SAMPLES { rs.len() - DISCARD_SAMPLES } else { 0 }),
    decreases rs.len(),
{
    if rs.len() > 0 {
        lemma_kept_sum_bound(rs.drop_last(), x_axis);
    }
}

/// The kept sum of readings that all lie in a band lies in the band scaled by
/// the number of kept readings.
proof fn lemma_kept_sum_band(rs: Seq<(u16, u16)>, x_axis: bool, lo: int, hi: int)
    requires
        forall|i: int| 0 <= i < rs.len() ==> lo <= (if x_axis { (#[trigger] rs[i]).0 as int } else { rs[i].1 as int }) <= hi,
    ensures
        lo * (if rs.len() >= DISCARD_SAMPLES { rs.len() - DISCARD_SAMPLES } else { 0 }) <= kept_sum(rs, x_axis),
        kept_sum(rs, x_axis) <= hi * (if rs.len() >= DISCARD_SAMPLES { rs.len() - DISCARD_SAMPLES } else { 0 }),
    decreases rs.len(),
{
    if rs.len() > 0 {
        let d = rs.drop_last();
        assert forall|i: int| 0 <= i < d.len() implies lo <= (if x_axis { (#[trigger] d[i]).0 as int } else { d[i].1 as int }) <= hi by {
            assert(d[i] == rs[i]);
        }
        lemma_kept_sum_band(d, x_axis, lo, hi);
        assert(rs.last() == rs[rs.len() - 1]);
        let k = if d.len() >= DISCARD_SAMPLES { d.len() - DISCARD_SAMPLES } else { 0 };
        if rs.len() - 1 >= DISCARD_SAMPLES {
            assert(lo * (k + 1) == lo * k + lo) by (nonlinear_arith);
            assert(hi * (k + 1) == hi * k + hi) by (nonlinear_arith);
        }
    }
}

/// When every reading of a full sample lies in a band, so does the averaged
/// position: averaging never lands outside the readings it averages.
pub proof fn lemma_average_within_band(rs: Seq<(u16, u16)>, lo_x: int, hi_x: int, lo_y: int, hi_y: int)
    requires
        rs.len() == POSITION_SAMPLES,
        forall|i: int| 0 <= i < rs.len() ==> lo_x <= (#[trigger] rs[i]).0 <= hi_x && lo_y <= rs[i].1 <= hi_y,
        0 <= lo_x,
        0 <= lo_y,
    ensures
        lo_x <= averaged(rs).0 <= hi_x,
        lo_y <= averaged(rs).1 <= hi_y,
{
    lemma_kept_sum_band(rs, true, lo_x, hi_x);
    lemma_kept_sum_band(rs, false, lo_y, hi_y);
    lemma_kept_sum_bound(rs, true);
    lemma_kept_sum_bound(rs, false);
    let sx = kept_sum(rs, true);
    let sy = kept_sum(rs, false);
    assert(lo_x <= sx / 6 <= hi_x) by (nonlinear_arith)
        requires
            lo_x * 6 <= sx <= hi_x * 6;
    assert(lo_y <= sy / 6 <= hi_y) by (nonlinear_arith)
        requires
            lo_y * 6 <= sy <= hi_y * 6;
    assert(sx / 6 <= 65535);
    assert(sy / 6 <= 65535);
}

/// De-bounces taps: one finger-down counts as one tap however many samples
/// it lasts; the next tap needs a release first.
#[derive(Clone, Copy, PartialEq, Eq, Debug, Structural)]
pub struct PressLatch {
    pub handled: bool,
}

impl PressLatch {
    /// A latch with no press in progress.
    pub fn new() -> (l: Self)
        ensures
            !l.handled,
    {
        PressLatch { handled: false }
    }

    /// Reports one touch sample; `true` exactly when it starts a new press.
    pub fn sample(&mut self, touched: bool) -> (new_press: bool)
        ensures
            new_press == (touched && !old(self).handled),
            final(self).handled == touched,
    {
        if touched {
            let fresh = !self.handled;
            self.handled = true;
            fresh
        } else {
            self.handled = false;
            false
        }
    }
}

} // verus!

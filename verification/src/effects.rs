use vstd::prelude::*;

verus! {

/// The curve of a distortion effect.
#[derive(Clone, Copy, Debug, PartialEq, Eq, Structural)]
pub enum DistortionKind {
    Tanh,
    HardClip,
    SoftClip,
    SineFold,
    Rectify,
    HalfRectify,
    Waveshape,
}

/// The response of a biquad filter.
#[derive(Clone, Copy, Debug, PartialEq, Eq, Structural)]
pub enum FilterKind {
    Lowpass,
    Highpass,
    Bandpass,
    Notch,
    Allpass,
    Peaking,
    LowShelf,
    HighShelf,
}

/// The vowel of a formant filter.
#[derive(Clone, Copy, Debug, PartialEq, Eq, Structural)]
pub enum Vowel {
    A,
    E,
    I,
    O,
    U,
}

/// The program of the AMS reverb model.
#[derive(Clone, Copy, Debug, PartialEq, Eq, Structural)]
pub enum AmsProgram {
    Nonlin,
    Ambience,
    Plate,
}

/// The channel that a stereo effect delays.
#[derive(Clone, Copy, Debug, PartialEq, Eq, Structural)]
pub enum StereoSide {
    Left,
    Right,
}

/// A gain as an exact fraction `num / den`, between 0 and 1.
#[derive(Clone, Copy, Debug, PartialEq, Eq, Structural)]
pub struct Gain {
    pub num: usize,
    pub den: usize,
}

/// A fade-in and fade-out envelope over a sound of `total` samples: the
/// first `fade_in` samples rise linearly from silence, the last `fade_out`
/// fall linearly to silence, and the samples between pass unchanged.
#[derive(Clone, Debug)]
pub struct Fade {
    age: usize,
    fade_in: usize,
    fade_out: usize,
    total: usize,
}

/// The gain of the fade-in at sample `age`, as a fraction, when it applies.
pub open spec fn fade_in_gain(age: nat, fade_in: nat) -> Option<(nat, nat)> {
    if fade_in > 0 && age < fade_in {
        if fade_in == 1 {
            Some((0nat, 1nat))
        } else {
            Some((age, (fade_in - 1) as nat))
        }
    } else {
        None
    }
}

/// The gain of the fade-out at sample `age`, as a fraction clamped at 0,
/// when it applies: it runs over the last `fade_out` samples of `total`.
pub open spec fn fade_out_gain(age: nat, fade_out: nat, total: nat) -> Option<(nat, nat)> {
    if fade_out > 0 && age + fade_out >= total {
        let start: nat = if total >= fade_out { (total - fade_out) as nat } else { 0 };
        let pos: nat = if age >= start { (age - start) as nat } else { 0 };
        if fade_out == 1 {
            Some((1nat, 1nat))
        } else if pos >= fade_out - 1 {
            Some((0nat, 1nat))
        } else {
            Some(((fade_out - 1 - pos) as nat, (fade_out - 1) as nat))
        }
    } else {
        None
    }
}

/// The smaller of two fractions (the first when they are equal).
pub open spec fn frac_min(a: (nat, nat), b: (nat, nat)) -> (nat, nat) {
    if a.0 * b.1 <= b.0 * a.1 {
        a
    } else {
        b
    }
}

/// The gain at sample `age`: 1, lowered to the fade-in and the fade-out
/// gains where they apply.
pub open spec fn fade_gain(age: nat, fade_in: nat, fade_out: nat, total: nat) -> (nat, nat) {
    let g1 = match fade_in_gain(age, fade_in) {
        Some(f) => frac_min((1nat, 1nat), f),
        None => (1nat, 1nat),
    };
    match fade_out_gain(age, fade_out, total) {
        Some(f) => frac_min(g1, f),
        None => g1,
    }
}


/// A fade starts from silence, passes the middle of the sound unchanged,
/// and ends in silence: the gain is 0 at the first sample when there is a
/// fade-in, 1 between the fades, and 0 at the last sample when the fade-out
/// is longer than one sample and fits in the sound.
pub proof fn lemma_fade_edges(fade_in: nat, fade_out: nat, total: nat, age: nat)
    ensures
        fade_in >= 1 ==> fade_gain(0, fade_in, fade_out, total).0 == 0,
        fade_in <= age && age + fade_out < total ==> fade_gain(age, fade_in, fade_out, total)
            == (1nat, 1nat),
        fade_out >= 2 && total >= fade_out ==> fade_gain(
            (total - 1) as nat,
            fade_in,
            fade_out,
            total,
        ).0 == 0,
{
    if fade_out >= 2 && total >= fade_out {
        let a = (total - 1) as nat;
        let g1 = match fade_in_gain(a, fade_in) {
            Some(f) => frac_min((1nat, 1nat), f),
            None => (1nat, 1nat),
        };
        assert(fade_out_gain(a, fade_out, total) == Some((0nat, 1nat)));
        assert(g1.0 * 1 >= 0 * g1.1) by (nonlinear_arith);
        assert(frac_min(g1, (0nat, 1nat)).0 == 0) by (nonlinear_arith)
            requires
                g1.0 * 1 >= 0 * g1.1,
        {
        }
    }
    if fade_in >= 1 {
        let g1 = frac_min((1nat, 1nat), fade_in_gain(0, fade_in)->0);
        assert(g1.0 == 0);
        match fade_out_gain(0, fade_out, total) {
            Some(f) => {
                assert(0 * f.1 <= f.0 * g1.1) by (nonlinear_arith);
            },
            None => {},
        }
    }
}

/// `a/b <= c/d` computed without overflow.
fn le_frac(a: usize, b: usize, c: usize, d: usize) -> (r: bool)
    ensures
        r == (a * d <= c * b),
{
    let a2 = a as u128;
    let b2 = b as u128;
    let c2 = c as u128;
    let d2 = d as u128;
    assert(a2 * d2 <= u128::MAX) by (nonlinear_arith)
        requires
            a2 <= u64::MAX,
            d2 <= u64::MAX,
    ;
    assert(c2 * b2 <= u128::MAX) by (nonlinear_arith)
        requires
            c2 <= u64::MAX,
            b2 <= u64::MAX,
    ;
    let x: u128 = a2 * d2;
    let y: u128 = c2 * b2;
    x <= y
}

impl Fade {
    /// The samples played so far, the fade lengths and the sound's length.
    pub closed spec fn state(&self) -> (nat, nat, nat, nat) {
        (self.age as nat, self.fade_in as nat, self.fade_out as nat, self.total as nat)
    }

    /// A fade over a sound of `total` samples, rising over the first
    /// `fade_in` and falling over the last `fade_out`.
    pub fn new(fade_in: usize, fade_out: usize, total: usize) -> (r: Self)
        ensures
            r.state() == (0nat, fade_in as nat, fade_out as nat, total as nat),
    {
        Fade { age: 0, fade_in, fade_out, total }
    }

    /// The gain of the current sample.
    pub fn gain(&self) -> (r: Gain)
        ensures
            (r.num as nat, r.den as nat) == fade_gain(
                self.state().0,
                self.state().1,
                self.state().2,
                self.state().3,
            ),
            r.den >= 1,
            r.num <= r.den,
    {
        let mut g = Gain { num: 1, den: 1 };
        if self.fade_in > 0 && self.age < self.fade_in {
            let f = if self.fade_in == 1 {
                Gain { num: 0, den: 1 }
            } else {
                Gain { num: self.age, den: self.fade_in - 1 }
            };
            if !le_frac(g.num, g.den, f.num, f.den) {
                g = f;
            }
        }
        let in_fade_out = self.fade_out > 0 && (self.total < self.fade_out || self.age >= self.total
            - self.fade_out);
        if in_fade_out {
            let start = if self.total >= self.fade_out {
                self.total - self.fade_out
            } else {
                0
            };
            let pos = if self.age >= start {
                self.age - start
            } else {
                0
            };
            let f = if self.fade_out == 1 {
                Gain { num: 1, den: 1 }
            } else if pos >= self.fade_out - 1 {
                Gain { num: 0, den: 1 }
            } else {
                Gain { num: self.fade_out - 1 - pos, den: self.fade_out - 1 }
            };
            if !le_frac(g.num, g.den, f.num, f.den) {
                g = f;
            }
        }
        g
    }

    /// Moves on to the next sample.
    pub fn advance(&mut self)
        ensures
            final(self).state() == (
                if old(self).state().0 < usize::MAX {
                    old(self).state().0 + 1
                } else {
                    old(self).state().0
                },
                old(self).state().1,
                old(self).state().2,
                old(self).state().3,
            ),
    {
        self.age = self.age.saturating_add(1);
    }

    /// The gain of the current sample, moving on to the next one.
    pub fn step(&mut self) -> (r: Gain)
        ensures
            (r.num as nat, r.den as nat) == fade_gain(
                old(self).state().0,
                old(self).state().1,
                old(self).state().2,
                old(self).state().3,
            ),
            r.den >= 1,
            r.num <= r.den,
            final(self).state() == (
                if old(self).state().0 < usize::MAX {
                    old(self).state().0 + 1
                } else {
                    old(self).state().0
                },
                old(self).state().1,
                old(self).state().2,
                old(self).state().3,
            ),
    {
        let g = self.gain();
        self.advance();
        g
    }
}

} // verus!

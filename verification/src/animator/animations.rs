//! The integer logic of the built-in animations. Positions and times are
//! floating point in the animations; what a frame shows is decided here
//! from the integers derived from them.

use vstd::prelude::*;

use crate::color::{black, white, Color, Frame};
use crate::text::{parse_usize, str_equal};
use vstd::arithmetic::div_mod::lemma_fundamental_div_mod_converse_div;
use vstd::arithmetic::power2::{lemma_pow2_pos, pow2};
use vstd::bits::lemma_usize_shr_is_div;

verus! {

/// Red, green or blue, by the light's position in a repeating pattern.
pub open spec fn rgb_color(k: int) -> Color {
    if k % 3 == 0 {
        Color { r: 255, g: 0, b: 0 }
    } else if k % 3 == 1 {
        Color { r: 0, g: 255, b: 0 }
    } else {
        Color { r: 0, g: 0, b: 255 }
    }
}

/// Lights cycling through red, green and blue.
pub struct Rgb {
    pub points_count: usize,
}

impl Rgb {
    pub fn new(points_count: usize) -> (a: Rgb)
        ensures
            a.points_count == points_count,
    {
        Rgb { points_count }
    }

    /// The frame at animation step `step` (the whole part of three times
    /// the absolute time): light `x` shows red, green or blue as
    /// `(x + step) % 3` is 0, 1 or 2.
    pub fn frame(&self, step: usize) -> (f: Frame)
        ensures
            f@.len() == self.points_count,
            forall|x: int| 0 <= x < self.points_count ==> #[trigger] f@[x] == rgb_color(x + step),
    {
        let mut pixels: Vec<Color> = Vec::new();
        let s = step % 3;
        let mut x: usize = 0;
        while x < self.points_count
            invariant
                x <= self.points_count,
                s == step % 3,
                pixels@.len() == x,
                forall|j: int| 0 <= j < x ==> #[trigger] pixels@[j] == rgb_color(j + step),
            decreases self.points_count - x,
        {
            let k = (x % 3 + s) % 3;
            assert(k as int == (x + step) % 3) by (nonlinear_arith)
                requires
                    k == (x % 3 + s) % 3,
                    s == step % 3,
            ;
            let c = if k == 0 {
                Color::rgb(255, 0, 0)
            } else if k == 1 {
                Color::rgb(0, 255, 0)
            } else {
                Color::rgb(0, 0, 255)
            };
            pixels.push(c);
            x = x + 1;
        }
        Frame { pixels }
    }
}

/// Lights one light after another, for checking each light works.
pub struct Check {
    pub points_count: usize,
}

impl Check {
    pub fn new(points_count: usize) -> (a: Check)
        ensures
            a.points_count == points_count,
    {
        Check { points_count }
    }

    /// The frame lighting light `index` white and all others off (all off
    /// when there is no such light).
    pub fn frame(&self, index: usize) -> (f: Frame)
        ensures
            f@.len() == self.points_count,
            forall|x: int|
                0 <= x < self.points_count ==> #[trigger] f@[x] == if x == index {
                    white()
                } else {
                    black()
                },
    {
        let f = Frame::new_black(self.points_count).with_pixel(index, Color::white());
        f
    }
}

/// All lights off.
pub struct Blank {
    pub frame: Frame,
}

impl Blank {
    pub fn new(points_count: usize) -> (a: Blank)
        ensures
            a.frame@ == Seq::new(points_count as nat, |_i: int| black()),
    {
        Blank { frame: Frame::new_black(points_count) }
    }

    /// The (always black) frame.
    pub fn frame(&self) -> (f: Frame)
        ensures
            f@ == self.frame@,
    {
        let mut pixels: Vec<Color> = Vec::new();
        let mut i: usize = 0;
        while i < self.frame.pixels.len()
            invariant
                i <= self.frame@.len(),
                pixels@ == self.frame@.take(i as int),
            decreases self.frame@.len() - i,
        {
            pixels.push(self.frame.pixels[i]);
            assert(self.frame@.take(i + 1) =~= self.frame@.take(i as int).push(self.frame@[i as int]));
            i = i + 1;
        }
        assert(self.frame@.take(self.frame@.len() as int) =~= self.frame@);
        Frame { pixels }
    }
}

/// Whether bit `bit` of `x` is set.
pub open spec fn bit_set(x: int, bit: nat) -> bool {
    (x / pow2(bit) as int) % 2 == 1
}

/// Bit `bit` of an index is the lowest bit of the index shifted right by
/// `bit`, as the index itself (any size) gives it.
pub proof fn lemma_bit_set_is_shifted_low_bit(x: usize, bit: usize)
    requires
        bit < usize::BITS,
    ensures
        bit_set(x as int, bit as nat) <==> (x >> bit) % 2 == 1,
{
    lemma_usize_shr_is_div(x, bit);
}

/// Writing a number as `q * 2^bit + r` with `r < 2^bit`, its bit `bit` is
/// set exactly when `q` is odd; in particular light `2^bit` is lit and
/// light `2^bit - 1` is not.
pub proof fn lemma_bit_set_of_quotient(q: nat, r: nat, bit: nat)
    requires
        r < pow2(bit),
    ensures
        bit_set((q * pow2(bit) + r) as int, bit) <==> q % 2 == 1,
        bit_set(pow2(bit) as int, bit),
        !bit_set(pow2(bit) - 1, bit),
{
    lemma_pow2_pos(bit);
    lemma_fundamental_div_mod_converse_div((q * pow2(bit) + r) as int, pow2(bit) as int, q as int, r as int);
    lemma_fundamental_div_mod_converse_div(pow2(bit) as int, pow2(bit) as int, 1, 0);
    lemma_fundamental_div_mod_converse_div(pow2(bit) - 1, pow2(bit) as int, 0, pow2(bit) - 1);
}

/// Lights showing one bit of their index, for telling lights apart on
/// camera: light `x` is white when bit `bit` of `x` is set.
pub struct Indexing {
    pub points_count: usize,
    pub bit: usize,
}

impl Indexing {
    pub fn new(points_count: usize) -> (a: Indexing)
        ensures
            a.points_count == points_count,
            a.bit == 0,
    {
        Indexing { points_count, bit: 0 }
    }

    /// Light `x` is white when bit `self.bit` of `x` is set, else off.
    pub fn frame(&self) -> (f: Frame)
        requires
            self.bit < usize::BITS,
        ensures
            f@.len() == self.points_count,
            forall|x: int|
                0 <= x < self.points_count ==> #[trigger] f@[x] == if bit_set(x, self.bit as nat) {
                    white()
                } else {
                    black()
                },
    {
        let mut pixels: Vec<Color> = Vec::new();
        let mut x: usize = 0;
        while x < self.points_count
            invariant
                x <= self.points_count,
                self.bit < usize::BITS,
                pixels@.len() == x,
                forall|j: int|
                    0 <= j < x ==> #[trigger] pixels@[j] == if bit_set(j, self.bit as nat) {
                        white()
                    } else {
                        black()
                    },
            decreases self.points_count - x,
        {
            proof {
                lemma_usize_shr_is_div(x, self.bit);
            }
            let c = if (x >> self.bit) % 2 == 0 {
                Color::black()
            } else {
                Color::white()
            };
            pixels.push(c);
            x = x + 1;
        }
        Frame { pixels }
    }

    /// Sets the bit to show from the text of the "bit" parameter: a
    /// decimal number, else the parameters are refused with "Incorrect
    /// parameters" and the bit is kept.
    pub fn set_bit_parameter(&mut self, bit: Option<&str>) -> (r: Result<(), String>)
        ensures
            final(self).points_count == old(self).points_count,
            match bit {
                Some(text) => match parse_usize_spec(text@) {
                    Some(v) => r is Ok && final(self).bit == v,
                    None => r matches Err(m) && m@ == "Incorrect parameters"@ && final(self).bit
                        == old(self).bit,
                },
                None => r matches Err(m) && m@ == "Incorrect parameters"@ && final(self).bit
                    == old(self).bit,
            },
    {
        let parsed = match bit {
            Some(text) => parse_usize(text),
            None => None,
        };
        match parsed {
            Some(v) => {
                self.bit = v;
                Ok(())
            },
            None => Err(String::from_str("Incorrect parameters")),
        }
    }
}

/// What `str::parse::<usize>` gives for a text.
pub open spec fn parse_usize_spec(s: Seq<char>) -> Option<usize> {
    match crate::text::parsed_unsigned(s) {
        Some(v) => if v <= usize::MAX {
            Some(v as usize)
        } else {
            None
        },
        None => None,
    }
}

/// The built-in animations, by name.
#[derive(Clone, Copy, Debug, PartialEq, Eq, Structural)]
pub enum AnimationKind {
    Blank,
    BarberPole,
    Check,
    RainbowCable,
    RainbowCylinder,
    RainbowSphere,
    RainbowSpiral,
    RainbowWaterfall,
    RandomSweep,
    Sweep,
    Rgb,
}

/// The built-in animation a name selects.
pub open spec fn animation_kind_spec(name: Seq<char>) -> Option<AnimationKind> {
    if name == "blank"@ {
        Some(AnimationKind::Blank)
    } else if name == "barber_pole"@ {
        Some(AnimationKind::BarberPole)
    } else if name == "check"@ {
        Some(AnimationKind::Check)
    } else if name == "rainbow_cable"@ {
        Some(AnimationKind::RainbowCable)
    } else if name == "rainbow_cylinder"@ {
        Some(AnimationKind::RainbowCylinder)
    } else if name == "rainbow_sphere"@ {
        Some(AnimationKind::RainbowSphere)
    } else if name == "rainbow_spiral"@ {
        Some(AnimationKind::RainbowSpiral)
    } else if name == "rainbow_waterfall"@ {
        Some(AnimationKind::RainbowWaterfall)
    } else if name == "random_sweep"@ {
        Some(AnimationKind::RandomSweep)
    } else if name == "sweep"@ {
        Some(AnimationKind::Sweep)
    } else if name == "rgb"@ {
        Some(AnimationKind::Rgb)
    } else {
        None
    }
}

/// The name each built-in animation is selected by.
pub open spec fn kind_name(k: AnimationKind) -> Seq<char> {
    match k {
        AnimationKind::Blank => "blank"@,
        AnimationKind::BarberPole => "barber_pole"@,
        AnimationKind::Check => "check"@,
        AnimationKind::RainbowCable => "rainbow_cable"@,
        AnimationKind::RainbowCylinder => "rainbow_cylinder"@,
        AnimationKind::RainbowSphere => "rainbow_sphere"@,
        AnimationKind::RainbowSpiral => "rainbow_spiral"@,
        AnimationKind::RainbowWaterfall => "rainbow_waterfall"@,
        AnimationKind::RandomSweep => "random_sweep"@,
        AnimationKind::Sweep => "sweep"@,
        AnimationKind::Rgb => "rgb"@,
    }
}

/// A name selects an animation exactly when it is that animation's name:
/// every animation is selected by its own name, and by no other.
pub proof fn lemma_name_selects_its_animation(name: Seq<char>, k: AnimationKind)
    ensures
        animation_kind_spec(name) == Some(k) <==> name == kind_name(k),
{
    reveal_strlit("blank");
    reveal_strlit("barber_pole");
    reveal_strlit("check");
    reveal_strlit("rainbow_cable");
    reveal_strlit("rainbow_cylinder");
    reveal_strlit("rainbow_sphere");
    reveal_strlit("rainbow_spiral");
    reveal_strlit("rainbow_waterfall");
    reveal_strlit("random_sweep");
    reveal_strlit("sweep");
    reveal_strlit("rgb");
    assert("blank"@[0] != "check"@[0]);
    assert("blank"@[0] != "sweep"@[0]);
    assert("check"@[0] != "sweep"@[0]);
    assert("rainbow_sphere"@[10] != "rainbow_spiral"@[10]);
    assert("blank"@ != "check"@);
    assert("blank"@ != "sweep"@);
    assert("check"@ != "sweep"@);
    assert("rainbow_sphere"@ != "rainbow_spiral"@);
    let names = seq![
        "blank"@, "barber_pole"@, "check"@, "rainbow_cable"@, "rainbow_cylinder"@,
        "rainbow_sphere"@, "rainbow_spiral"@, "rainbow_waterfall"@, "random_sweep"@, "sweep"@,
        "rgb"@,
    ];
    assert(names[0].len() == 5 && names[1].len() == 11 && names[2].len() == 5);
    assert(names[3].len() == 13 && names[4].len() == 16 && names[5].len() == 14);
    assert(names[6].len() == 14 && names[7].len() == 17 && names[8].len() == 12);
    assert(names[9].len() == 5 && names[10].len() == 3);
    if name == kind_name(k) {
        assert(animation_kind_spec(name) == Some(k));
    }
    if animation_kind_spec(name) == Some(k) {
        assert(name == kind_name(k));
    }
}

/// Different names never select the same animation.
pub proof fn lemma_selection_is_injective(a: Seq<char>, b: Seq<char>)
    requires
        animation_kind_spec(a) is Some,
        animation_kind_spec(a) == animation_kind_spec(b),
    ensures
        a == b,
{
    let k = animation_kind_spec(a)->0;
    lemma_name_selects_its_animation(a, k);
    lemma_name_selects_its_animation(b, k);
}

/// The built-in animation a name selects; `None` for an unknown name.
pub fn animation_kind(name: &str) -> (k: Option<AnimationKind>)
    ensures
        k == animation_kind_spec(name@),
        k matches Some(kind) ==> name@ == kind_name(kind),
{
    proof {
        if let Some(kind) = animation_kind_spec(name@) {
            lemma_name_selects_its_animation(name@, kind);
        }
    }
    if str_equal(name, "blank") {
        Some(AnimationKind::Blank)
    } else if str_equal(name, "barber_pole") {
        Some(AnimationKind::BarberPole)
    } else if str_equal(name, "check") {
        Some(AnimationKind::Check)
    } else if str_equal(name, "rainbow_cable") {
        Some(AnimationKind::RainbowCable)
    } else if str_equal(name, "rainbow_cylinder") {
        Some(AnimationKind::RainbowCylinder)
    } else if str_equal(name, "rainbow_sphere") {
        Some(AnimationKind::RainbowSphere)
    } else if str_equal(name, "rainbow_spiral") {
        Some(AnimationKind::RainbowSpiral)
    } else if str_equal(name, "rainbow_waterfall") {
        Some(AnimationKind::RainbowWaterfall)
    } else if str_equal(name, "random_sweep") {
        Some(AnimationKind::RandomSweep)
    } else if str_equal(name, "sweep") {
        Some(AnimationKind::Sweep)
    } else if str_equal(name, "rgb") {
        Some(AnimationKind::Rgb)
    } else {
        None
    }
}

} // verus!

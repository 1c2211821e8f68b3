//! The parameter panel of the demo: one slider for each parameter, and the
//! looks that the presets give them.
//!
//! Parameters are counted in thousandths; the profile and the number of
//! spectral taps are whole numbers.

use vstd::prelude::*;
use super::PRESETS;

verus! {

/// How many sliders the panel has.
pub const KNOBS: usize = 18;

/// What the glass is made of.
#[derive(Debug, Clone, Copy, PartialEq, Eq, Structural)]
pub struct Params {
    pub merge: i32,
    pub bezel: i32,
    pub thickness: i32,
    pub profile: i32,
    pub ior: i32,
    pub dispersion: i32,
    pub samples: i32,
    pub frost: i32,
    pub specular: i32,
    pub shine: i32,
    pub fresnel: i32,
    pub lens_gain: i32,
    pub tint_red: i32,
    pub tint_green: i32,
    pub tint_blue: i32,
    pub tint_alpha: i32,
    pub shadow: i32,
    pub refract: i32,
    pub edge_light: i32,
    pub noise: i32,
    pub ripple_amp: i32,
}

/// The look of a preset.
pub open spec fn preset_params(i: int) -> Params {
    if i == 0 {
        Params {
            merge: 0,
            bezel: 46000,
            thickness: 95000,
            profile: 1,
            ior: 1500,
            dispersion: 4,
            samples: 4,
            frost: 3000,
            specular: 300,
            shine: 44000,
            fresnel: 450,
            lens_gain: 550,
            tint_red: 1000,
            tint_green: 1000,
            tint_blue: 1000,
            tint_alpha: 70,
            shadow: 420,
            refract: 1000,
            edge_light: 450,
            noise: 12,
            ripple_amp: 26000,
        }
    } else if i == 1 {
        Params {
            merge: 0,
            bezel: 54000,
            thickness: 130000,
            profile: 0,
            ior: 1520,
            dispersion: 12,
            samples: 8,
            frost: 0,
            specular: 550,
            shine: 90000,
            fresnel: 850,
            lens_gain: 900,
            tint_red: 1000,
            tint_green: 1000,
            tint_blue: 1000,
            tint_alpha: 0,
            shadow: 300,
            refract: 1000,
            edge_light: 750,
            noise: 8,
            ripple_amp: 34000,
        }
    } else if i == 2 {
        Params {
            merge: 0,
            bezel: 78000,
            thickness: 165000,
            profile: 0,
            ior: 1620,
            dispersion: 55,
            samples: 16,
            frost: 0,
            specular: 450,
            shine: 70000,
            fresnel: 550,
            lens_gain: 1100,
            tint_red: 1000,
            tint_green: 1000,
            tint_blue: 1000,
            tint_alpha: 0,
            shadow: 340,
            refract: 1250,
            edge_light: 600,
            noise: 10,
            ripple_amp: 40000,
        }
    } else if i == 3 {
        Params {
            merge: 95000,
            bezel: 52000,
            thickness: 120000,
            profile: 3,
            ior: 1480,
            dispersion: 8,
            samples: 6,
            frost: 1600,
            specular: 420,
            shine: 55000,
            fresnel: 550,
            lens_gain: 850,
            tint_red: 850,
            tint_green: 930,
            tint_blue: 1000,
            tint_alpha: 50,
            shadow: 400,
            refract: 1100,
            edge_light: 700,
            noise: 10,
            ripple_amp: 48000,
        }
    } else if i == 4 {
        Params {
            merge: 0,
            bezel: 60000,
            thickness: 110000,
            profile: 2,
            ior: 1500,
            dispersion: 10,
            samples: 6,
            frost: 600,
            specular: 350,
            shine: 50000,
            fresnel: 500,
            lens_gain: 800,
            tint_red: 1000,
            tint_green: 1000,
            tint_blue: 1000,
            tint_alpha: 30,
            shadow: 350,
            refract: 1000,
            edge_light: 500,
            noise: 10,
            ripple_amp: 30000,
        }
    } else {
        Params {
            merge: 22000,
            bezel: 16000,
            thickness: 30000,
            profile: 1,
            ior: 1460,
            dispersion: 3,
            samples: 3,
            frost: 4200,
            specular: 280,
            shine: 60000,
            fresnel: 350,
            lens_gain: 450,
            tint_red: 1000,
            tint_green: 1000,
            tint_blue: 1000,
            tint_alpha: 100,
            shadow: 300,
            refract: 1000,
            edge_light: 400,
            noise: 14,
            ripple_amp: 12000,
        }
    }
}

/// The look of a preset.
pub fn params_of(i: usize) -> (r: Params)
    ensures
        r == preset_params(i as int),
{
    match i {
        0 => Params {
            merge: 0,
            bezel: 46000,
            thickness: 95000,
            profile: 1,
            ior: 1500,
            dispersion: 4,
            samples: 4,
            frost: 3000,
            specular: 300,
            shine: 44000,
            fresnel: 450,
            lens_gain: 550,
            tint_red: 1000,
            tint_green: 1000,
            tint_blue: 1000,
            tint_alpha: 70,
            shadow: 420,
            refract: 1000,
            edge_light: 450,
            noise: 12,
            ripple_amp: 26000,
        },
        1 => Params {
            merge: 0,
            bezel: 54000,
            thickness: 130000,
            profile: 0,
            ior: 1520,
            dispersion: 12,
            samples: 8,
            frost: 0,
            specular: 550,
            shine: 90000,
            fresnel: 850,
            lens_gain: 900,
            tint_red: 1000,
            tint_green: 1000,
            tint_blue: 1000,
            tint_alpha: 0,
            shadow: 300,
            refract: 1000,
            edge_light: 750,
            noise: 8,
            ripple_amp: 34000,
        },
        2 => Params {
            merge: 0,
            bezel: 78000,
            thickness: 165000,
            profile: 0,
            ior: 1620,
            dispersion: 55,
            samples: 16,
            frost: 0,
            specular: 450,
            shine: 70000,
            fresnel: 550,
            lens_gain: 1100,
            tint_red: 1000,
            tint_green: 1000,
            tint_blue: 1000,
            tint_alpha: 0,
            shadow: 340,
            refract: 1250,
            edge_light: 600,
            noise: 10,
            ripple_amp: 40000,
        },
        3 => Params {
            merge: 95000,
            bezel: 52000,
            thickness: 120000,
            profile: 3,
            ior: 1480,
            dispersion: 8,
            samples: 6,
            frost: 1600,
            specular: 420,
            shine: 55000,
            fresnel: 550,
            lens_gain: 850,
            tint_red: 850,
            tint_green: 930,
            tint_blue: 1000,
            tint_alpha: 50,
            shadow: 400,
            refract: 1100,
            edge_light: 700,
            noise: 10,
            ripple_amp: 48000,
        },
        4 => Params {
            merge: 0,
            bezel: 60000,
            thickness: 110000,
            profile: 2,
            ior: 1500,
            dispersion: 10,
            samples: 6,
            frost: 600,
            specular: 350,
            shine: 50000,
            fresnel: 500,
            lens_gain: 800,
            tint_red: 1000,
            tint_green: 1000,
            tint_blue: 1000,
            tint_alpha: 30,
            shadow: 350,
            refract: 1000,
            edge_light: 500,
            noise: 10,
            ripple_amp: 30000,
        },
        _ => Params {
            merge: 22000,
            bezel: 16000,
            thickness: 30000,
            profile: 1,
            ior: 1460,
            dispersion: 3,
            samples: 3,
            frost: 4200,
            specular: 280,
            shine: 60000,
            fresnel: 350,
            lens_gain: 450,
            tint_red: 1000,
            tint_green: 1000,
            tint_blue: 1000,
            tint_alpha: 100,
            shadow: 300,
            refract: 1000,
            edge_light: 400,
            noise: 14,
            ripple_amp: 12000,
        },
    }
}

/// A slider of the panel.
#[derive(Debug, Clone, Copy, PartialEq, Eq, Structural)]
pub enum Knob {
    Merge,
    Bezel,
    Thickness,
    Profile,
    Ior,
    Dispersion,
    Samples,
    Refract,
    LensGain,
    Fresnel,
    Frost,
    Tint,
    Specular,
    Shine,
    EdgeLight,
    Shadow,
    Noise,
    RippleAmp,
}

/// The sliders, from the top.
pub open spec fn knob_at(i: int) -> Knob {
    if i == 0 {
        Knob::Merge
    } else if i == 1 {
        Knob::Bezel
    } else if i == 2 {
        Knob::Thickness
    } else if i == 3 {
        Knob::Profile
    } else if i == 4 {
        Knob::Ior
    } else if i == 5 {
        Knob::Dispersion
    } else if i == 6 {
        Knob::Samples
    } else if i == 7 {
        Knob::Refract
    } else if i == 8 {
        Knob::LensGain
    } else if i == 9 {
        Knob::Fresnel
    } else if i == 10 {
        Knob::Frost
    } else if i == 11 {
        Knob::Tint
    } else if i == 12 {
        Knob::Specular
    } else if i == 13 {
        Knob::Shine
    } else if i == 14 {
        Knob::EdgeLight
    } else if i == 15 {
        Knob::Shadow
    } else if i == 16 {
        Knob::Noise
    } else {
        Knob::RippleAmp
    }
}

/// The slider at a place from the top.
pub fn knob(i: usize) -> (r: Knob)
    ensures
        r == knob_at(i as int),
{
    match i {
        0 => Knob::Merge,
        1 => Knob::Bezel,
        2 => Knob::Thickness,
        3 => Knob::Profile,
        4 => Knob::Ior,
        5 => Knob::Dispersion,
        6 => Knob::Samples,
        7 => Knob::Refract,
        8 => Knob::LensGain,
        9 => Knob::Fresnel,
        10 => Knob::Frost,
        11 => Knob::Tint,
        12 => Knob::Specular,
        13 => Knob::Shine,
        14 => Knob::EdgeLight,
        15 => Knob::Shadow,
        16 => Knob::Noise,
        _ => Knob::RippleAmp,
    }
}

/// What a slider is labelled, and how far it goes, in thousandths.
pub struct Slider {
    pub group: &'static str,
    pub label: &'static str,
    pub min: i32,
    pub max: i32,
    pub step: i32,
}

/// The slider of a parameter.
pub open spec fn slider_of(k: Knob) -> Slider {
    match k {
        Knob::Merge => Slider { group: "SHAPE", label: "merge", min: 0, max: 220000, step: 1000 },
        Knob::Bezel => Slider { group: "SHAPE", label: "bezel", min: 4000, max: 140000, step: 1000 },
        Knob::Thickness => Slider { group: "SHAPE", label: "thickness", min: 4000, max: 280000, step: 1000 },
        Knob::Profile => Slider { group: "SHAPE", label: "profile", min: 0, max: 3000, step: 1000 },
        Knob::Ior => Slider { group: "OPTICS", label: "ior", min: 1000, max: 2400, step: 5 },
        Knob::Dispersion => Slider { group: "OPTICS", label: "dispersion", min: 0, max: 90, step: 1 },
        Knob::Samples => Slider { group: "OPTICS", label: "spectral taps", min: 1000, max: 24000, step: 1000 },
        Knob::Refract => Slider { group: "OPTICS", label: "refract scale", min: 0, max: 3000, step: 10 },
        Knob::LensGain => Slider { group: "OPTICS", label: "lens gain", min: 0, max: 3000, step: 10 },
        Knob::Fresnel => Slider { group: "OPTICS", label: "fresnel", min: 0, max: 1000, step: 10 },
        Knob::Frost => Slider { group: "MATERIAL", label: "frost", min: 0, max: 7000, step: 50 },
        Knob::Tint => Slider { group: "MATERIAL", label: "tint", min: 0, max: 450, step: 5 },
        Knob::Specular => Slider { group: "MATERIAL", label: "specular", min: 0, max: 1200, step: 10 },
        Knob::Shine => Slider { group: "MATERIAL", label: "shininess", min: 2000, max: 160000, step: 1000 },
        Knob::EdgeLight => Slider { group: "MATERIAL", label: "edge light", min: 0, max: 1600, step: 10 },
        Knob::Shadow => Slider { group: "MATERIAL", label: "shadow", min: 0, max: 1000, step: 10 },
        Knob::Noise => Slider { group: "MATERIAL", label: "grain", min: 0, max: 80, step: 1 },
        Knob::RippleAmp => Slider { group: "MATERIAL", label: "ripple", min: 0, max: 90000, step: 1000 },
    }
}

/// The slider of a parameter.
pub fn slider(k: Knob) -> (r: Slider)
    ensures
        r == slider_of(k),
{
    match k {
        Knob::Merge => Slider { group: "SHAPE", label: "merge", min: 0, max: 220000, step: 1000 },
        Knob::Bezel => Slider { group: "SHAPE", label: "bezel", min: 4000, max: 140000, step: 1000 },
        Knob::Thickness => Slider { group: "SHAPE", label: "thickness", min: 4000, max: 280000, step: 1000 },
        Knob::Profile => Slider { group: "SHAPE", label: "profile", min: 0, max: 3000, step: 1000 },
        Knob::Ior => Slider { group: "OPTICS", label: "ior", min: 1000, max: 2400, step: 5 },
        Knob::Dispersion => Slider { group: "OPTICS", label: "dispersion", min: 0, max: 90, step: 1 },
        Knob::Samples => Slider { group: "OPTICS", label: "spectral taps", min: 1000, max: 24000, step: 1000 },
        Knob::Refract => Slider { group: "OPTICS", label: "refract scale", min: 0, max: 3000, step: 10 },
        Knob::LensGain => Slider { group: "OPTICS", label: "lens gain", min: 0, max: 3000, step: 10 },
        Knob::Fresnel => Slider { group: "OPTICS", label: "fresnel", min: 0, max: 1000, step: 10 },
        Knob::Frost => Slider { group: "MATERIAL", label: "frost", min: 0, max: 7000, step: 50 },
        Knob::Tint => Slider { group: "MATERIAL", label: "tint", min: 0, max: 450, step: 5 },
        Knob::Specular => Slider { group: "MATERIAL", label: "specular", min: 0, max: 1200, step: 10 },
        Knob::Shine => Slider { group: "MATERIAL", label: "shininess", min: 2000, max: 160000, step: 1000 },
        Knob::EdgeLight => Slider { group: "MATERIAL", label: "edge light", min: 0, max: 1600, step: 10 },
        Knob::Shadow => Slider { group: "MATERIAL", label: "shadow", min: 0, max: 1000, step: 10 },
        Knob::Noise => Slider { group: "MATERIAL", label: "grain", min: 0, max: 80, step: 1 },
        Knob::RippleAmp => Slider { group: "MATERIAL", label: "ripple", min: 0, max: 90000, step: 1000 },
    }
}

/// Whether a parameter is a whole number.
pub open spec fn is_whole(k: Knob) -> bool {
    k is Profile || k is Samples
}

/// A parameter, in thousandths.
pub open spec fn value_of(p: Params, k: Knob) -> int {
    match k {
        Knob::Merge => p.merge as int,
        Knob::Bezel => p.bezel as int,
        Knob::Thickness => p.thickness as int,
        Knob::Profile => p.profile * 1000,
        Knob::Ior => p.ior as int,
        Knob::Dispersion => p.dispersion as int,
        Knob::Samples => p.samples * 1000,
        Knob::Refract => p.refract as int,
        Knob::LensGain => p.lens_gain as int,
        Knob::Fresnel => p.fresnel as int,
        Knob::Frost => p.frost as int,
        Knob::Tint => p.tint_alpha as int,
        Knob::Specular => p.specular as int,
        Knob::Shine => p.shine as int,
        Knob::EdgeLight => p.edge_light as int,
        Knob::Shadow => p.shadow as int,
        Knob::Noise => p.noise as int,
        Knob::RippleAmp => p.ripple_amp as int,
    }
}

/// The parameters with one of them set; a whole number loses its thousandths.
pub open spec fn with_value(p: Params, k: Knob, v: i32) -> Params {
    match k {
        Knob::Merge => Params { merge: v, ..p },
        Knob::Bezel => Params { bezel: v, ..p },
        Knob::Thickness => Params { thickness: v, ..p },
        Knob::Profile => Params { profile: (v / 1000) as i32, ..p },
        Knob::Ior => Params { ior: v, ..p },
        Knob::Dispersion => Params { dispersion: v, ..p },
        Knob::Samples => Params { samples: (v / 1000) as i32, ..p },
        Knob::Refract => Params { refract: v, ..p },
        Knob::LensGain => Params { lens_gain: v, ..p },
        Knob::Fresnel => Params { fresnel: v, ..p },
        Knob::Frost => Params { frost: v, ..p },
        Knob::Tint => Params { tint_alpha: v, ..p },
        Knob::Specular => Params { specular: v, ..p },
        Knob::Shine => Params { shine: v, ..p },
        Knob::EdgeLight => Params { edge_light: v, ..p },
        Knob::Shadow => Params { shadow: v, ..p },
        Knob::Noise => Params { noise: v, ..p },
        Knob::RippleAmp => Params { ripple_amp: v, ..p },
    }
}

/// A value as a slider shows it: its own ends stop it.
pub open spec fn stopped(k: Knob, v: int) -> i32 {
    let s = slider_of(k);
    if v < s.min {
        s.min
    } else if v > s.max {
        s.max
    } else {
        v as i32
    }
}

/// A value as a slider shows it.
fn stop(k: Knob, v: i64) -> (r: i32)
    ensures
        r == stopped(k, v as int),
{
    let s = slider(k);
    if v < s.min as i64 {
        s.min
    } else if v > s.max as i64 {
        s.max
    } else {
        v as i32
    }
}

/// What the sliders show of some parameters.
pub open spec fn shown_of(p: Params) -> Seq<i32> {
    Seq::new(KNOBS as nat, |i: int| stopped(knob_at(i), value_of(p, knob_at(i))))
}

/// A panel: the parameters, and what the sliders show.
#[verifier::ext_equal]
pub struct PanelModel {
    pub params: Params,
    pub shown: Seq<i32>,
}

impl Params {
    /// A parameter, in thousandths.
    pub fn get(&self, k: Knob) -> (r: i64)
        ensures
            r == value_of(*self, k),
    {
        match k {
            Knob::Merge => self.merge as i64,
            Knob::Bezel => self.bezel as i64,
            Knob::Thickness => self.thickness as i64,
            Knob::Profile => self.profile as i64 * 1000,
            Knob::Ior => self.ior as i64,
            Knob::Dispersion => self.dispersion as i64,
            Knob::Samples => self.samples as i64 * 1000,
            Knob::Refract => self.refract as i64,
            Knob::LensGain => self.lens_gain as i64,
            Knob::Fresnel => self.fresnel as i64,
            Knob::Frost => self.frost as i64,
            Knob::Tint => self.tint_alpha as i64,
            Knob::Specular => self.specular as i64,
            Knob::Shine => self.shine as i64,
            Knob::EdgeLight => self.edge_light as i64,
            Knob::Shadow => self.shadow as i64,
            Knob::Noise => self.noise as i64,
            Knob::RippleAmp => self.ripple_amp as i64,
        }
    }

    /// Sets a parameter; a whole number loses its thousandths.
    pub fn put(&mut self, k: Knob, v: i32)
        requires
            v >= 0,
        ensures
            *final(self) == with_value(*old(self), k, v),
    {
        match k {
            Knob::Merge => {
                self.merge = v;
            },
            Knob::Bezel => {
                self.bezel = v;
            },
            Knob::Thickness => {
                self.thickness = v;
            },
            Knob::Profile => {
                self.profile = (v as u32 / 1000) as i32;
            },
            Knob::Ior => {
                self.ior = v;
            },
            Knob::Dispersion => {
                self.dispersion = v;
            },
            Knob::Samples => {
                self.samples = (v as u32 / 1000) as i32;
            },
            Knob::Refract => {
                self.refract = v;
            },
            Knob::LensGain => {
                self.lens_gain = v;
            },
            Knob::Fresnel => {
                self.fresnel = v;
            },
            Knob::Frost => {
                self.frost = v;
            },
            Knob::Tint => {
                self.tint_alpha = v;
            },
            Knob::Specular => {
                self.specular = v;
            },
            Knob::Shine => {
                self.shine = v;
            },
            Knob::EdgeLight => {
                self.edge_light = v;
            },
            Knob::Shadow => {
                self.shadow = v;
            },
            Knob::Noise => {
                self.noise = v;
            },
            Knob::RippleAmp => {
                self.ripple_amp = v;
            },
        }
    }
}

/// The parameter panel.
pub struct Panel {
    params: Params,
    shown: Vec<i32>,
    /// The sliders are being moved by a preset, not by a hand.
    guarded: bool,
}

impl View for Panel {
    type V = PanelModel;

    closed spec fn view(&self) -> PanelModel {
        PanelModel { params: self.params, shown: self.shown@ }
    }
}

impl Panel {
    /// There is a value for each slider, and no preset is half applied.
    pub closed spec fn wf(self) -> bool {
        self.shown@.len() == KNOBS && !self.guarded
    }

    /// A panel that shows some parameters.
    pub fn new(params: Params) -> (r: Panel)
        ensures
            r.wf(),
            r@ == (PanelModel { params, shown: shown_of(params) }),
    {
        let mut shown: Vec<i32> = Vec::new();
        let mut i: usize = 0;
        while i < KNOBS
            invariant
                i <= KNOBS,
                shown@ == shown_of(params).take(i as int),
            decreases KNOBS - i,
        {
            let k = knob(i);
            shown.push(stop(k, params.get(k)));
            assert(shown@ =~= shown_of(params).take(i + 1));
            i += 1;
        }
        assert(shown@ =~= shown_of(params));
        Panel { params, shown, guarded: false }
    }

    /// A slider came to stand elsewhere. What it shows follows; the parameter
    /// follows only where a hand moved it.
    fn value_changed(&mut self, i: usize, v: i32)
        requires
            i < KNOBS,
            v >= 0,
            old(self).shown@.len() == KNOBS,
        ensures
            final(self).shown@ == old(self).shown@.update(i as int, v),
            final(self).guarded == old(self).guarded,
            final(self).params == if old(self).guarded {
                old(self).params
            } else {
                with_value(old(self).params, knob_at(i as int), v)
            },
    {
        self.shown.set(i, v);
        if self.guarded {
            return;
        }
        let mut params = self.params;
        params.put(knob(i), v);
        self.params = params;
    }

    /// A hand moves the slider at a place from the top.
    pub fn slide(&mut self, i: usize, v: i32)
        requires
            old(self).wf(),
            i < KNOBS,
        ensures
            final(self).wf(),
            final(self)@ == (PanelModel {
                params: with_value(
                    old(self)@.params,
                    knob_at(i as int),
                    stopped(knob_at(i as int), v as int),
                ),
                shown: old(self)@.shown.update(i as int, stopped(knob_at(i as int), v as int)),
            }),
    {
        let v: i32 = stop(knob(i), v as i64);
        self.value_changed(i, v);
    }

    /// Takes the parameters of a preset and moves every slider to them,
    /// without the sliders writing back what they can show of them.
    pub fn sync(&mut self, params: Params)
        requires
            old(self).wf(),
        ensures
            final(self).wf(),
            final(self)@ == (PanelModel { params, shown: shown_of(params) }),
    {
        self.params = params;
        self.guarded = true;
        let mut i: usize = 0;
        while i < KNOBS
            invariant
                i <= KNOBS,
                self.guarded,
                self.params == params,
                self.shown@.len() == KNOBS,
                self.shown@.take(i as int) == shown_of(params).take(i as int),
            decreases KNOBS - i,
        {
            let ghost before = self.shown@;
            let k = knob(i);
            let v: i32 = stop(k, params.get(k));
            self.value_changed(i, v);
            assert(self.shown@.take(i + 1) =~= before.take(i as int).push(v));
            assert(shown_of(params).take(i + 1) =~= shown_of(params).take(i as int).push(v));
            i += 1;
        }
        self.guarded = false;
        assert(self.shown@ =~= self.shown@.take(KNOBS as int));
        assert(shown_of(params) =~= shown_of(params).take(KNOBS as int));
    }

    /// The parameters that the glass is drawn with.
    pub fn params(&self) -> (r: Params)
        ensures
            r == self@.params,
    {
        self.params
    }

    /// Where a slider stands.
    pub fn shown(&self, i: usize) -> (r: i32)
        requires
            self.wf(),
            i < KNOBS,
        ensures
            r == self@.shown[i as int],
    {
        self.shown[i]
    }
}

/// After a preset the panel does not lie about what is on screen: each slider
/// stands at its parameter.
pub proof fn law_the_panel_shows_the_preset(preset: int, i: int)
    requires
        0 <= preset < PRESETS,
        0 <= i < KNOBS,
    ensures
        shown_of(preset_params(preset))[i] == value_of(preset_params(preset), knob_at(i)),
{
}

/// A slider moves its own parameter and no other.
pub proof fn law_a_slider_moves_its_own_parameter(p: Params, k: Knob, other: Knob, v: i32)
    requires
        v >= 0,
        k != other,
    ensures
        value_of(with_value(p, k, v), other) == value_of(p, other),
        !is_whole(k) ==> value_of(with_value(p, k, v), k) == v,
        is_whole(k) ==> value_of(with_value(p, k, v), k) == v - v % 1000,
{
}

/// Each slider reads the parameter it is named for, whole numbers counted in
/// thousandths too.
pub proof fn law_a_slider_reads_what_it_is_named_for(p: Params)
    ensures
        value_of(p, Knob::Merge) == p.merge,
        value_of(p, Knob::Bezel) == p.bezel,
        value_of(p, Knob::Thickness) == p.thickness,
        value_of(p, Knob::Profile) == 1000 * p.profile,
        value_of(p, Knob::Ior) == p.ior,
        value_of(p, Knob::Dispersion) == p.dispersion,
        value_of(p, Knob::Samples) == 1000 * p.samples,
        value_of(p, Knob::Refract) == p.refract,
        value_of(p, Knob::LensGain) == p.lens_gain,
        value_of(p, Knob::Fresnel) == p.fresnel,
        value_of(p, Knob::Frost) == p.frost,
        value_of(p, Knob::Tint) == p.tint_alpha,
        value_of(p, Knob::Specular) == p.specular,
        value_of(p, Knob::Shine) == p.shine,
        value_of(p, Knob::EdgeLight) == p.edge_light,
        value_of(p, Knob::Shadow) == p.shadow,
        value_of(p, Knob::Noise) == p.noise,
        value_of(p, Knob::RippleAmp) == p.ripple_amp,
{
}

/// No slider touches the color of the tint.
pub proof fn law_the_tint_keeps_its_color(p: Params, k: Knob, v: i32)
    ensures
        with_value(p, k, v).tint_red == p.tint_red,
        with_value(p, k, v).tint_green == p.tint_green,
        with_value(p, k, v).tint_blue == p.tint_blue,
{
}

/// A slider shows a value that lies between its ends as it is, and one beyond
/// them as the end it lies beyond.
pub proof fn law_a_slider_stops_at_its_ends(k: Knob, v: int)
    ensures
        ({
            let s = slider_of(k);
            &&& s.min < s.max
            &&& s.min <= stopped(k, v) <= s.max
            &&& s.min <= v <= s.max ==> stopped(k, v) == v
            &&& v < s.min ==> stopped(k, v) == s.min
            &&& v > s.max ==> stopped(k, v) == s.max
        }),
{
}

/// The sliders from the top: how they are grouped and labelled, and how far they
/// go.
pub proof fn law_the_sliders_from_the_top(i: int)
    requires
        0 <= i < 18,
    ensures
        KNOBS == 18,
        ({
            let s = slider_of(knob_at(i));
            &&& s.group == if i < 4 {
                "SHAPE"
            } else if i < 10 {
                "OPTICS"
            } else {
                "MATERIAL"
            }
            &&& s.label == seq![
                "merge",
                "bezel",
                "thickness",
                "profile",
                "ior",
                "dispersion",
                "spectral taps",
                "refract scale",
                "lens gain",
                "fresnel",
                "frost",
                "tint",
                "specular",
                "shininess",
                "edge light",
                "shadow",
                "grain",
                "ripple",
            ][i]
            &&& s.min == seq![
                0i32,
                4000,
                4000,
                0,
                1000,
                0,
                1000,
                0,
                0,
                0,
                0,
                0,
                0,
                2000,
                0,
                0,
                0,
                0,
            ][i]
            &&& s.max == seq![
                220000i32,
                140000,
                280000,
                3000,
                2400,
                90,
                24000,
                3000,
                3000,
                1000,
                7000,
                450,
                1200,
                160000,
                1600,
                1000,
                80,
                90000,
            ][i]
            &&& s.step == seq![
                1000i32,
                1000,
                1000,
                1000,
                5,
                1,
                1000,
                10,
                10,
                10,
                50,
                5,
                10,
                1000,
                10,
                10,
                1,
                1000,
            ][i]
        }),
{
}

/// Every parameter from one preset to the next.
pub proof fn law_the_looks_of_the_presets(i: int)
    requires
        0 <= i < 6,
    ensures
        preset_params(i).merge == seq![0i32, 0, 0, 95000, 0, 22000][i],
        preset_params(i).bezel == seq![46000i32, 54000, 78000, 52000, 60000, 16000][i],
        preset_params(i).thickness == seq![95000i32, 130000, 165000, 120000, 110000, 30000][i],
        preset_params(i).profile == seq![1i32, 0, 0, 3, 2, 1][i],
        preset_params(i).ior == seq![1500i32, 1520, 1620, 1480, 1500, 1460][i],
        preset_params(i).dispersion == seq![4i32, 12, 55, 8, 10, 3][i],
        preset_params(i).samples == seq![4i32, 8, 16, 6, 6, 3][i],
        preset_params(i).frost == seq![3000i32, 0, 0, 1600, 600, 4200][i],
        preset_params(i).specular == seq![300i32, 550, 450, 420, 350, 280][i],
        preset_params(i).shine == seq![44000i32, 90000, 70000, 55000, 50000, 60000][i],
        preset_params(i).fresnel == seq![450i32, 850, 550, 550, 500, 350][i],
        preset_params(i).lens_gain == seq![550i32, 900, 1100, 850, 800, 450][i],
        preset_params(i).tint_red == seq![1000i32, 1000, 1000, 850, 1000, 1000][i],
        preset_params(i).tint_green == seq![1000i32, 1000, 1000, 930, 1000, 1000][i],
        preset_params(i).tint_blue == 1000,
        preset_params(i).tint_alpha == seq![70i32, 0, 0, 50, 30, 100][i],
        preset_params(i).shadow == seq![420i32, 300, 340, 400, 350, 300][i],
        preset_params(i).refract == seq![1000i32, 1000, 1250, 1100, 1000, 1000][i],
        preset_params(i).edge_light == seq![450i32, 750, 600, 700, 500, 400][i],
        preset_params(i).noise == seq![12i32, 8, 10, 10, 10, 14][i],
        preset_params(i).ripple_amp == seq![26000i32, 34000, 40000, 48000, 30000, 12000][i],
{
}

} // verus!

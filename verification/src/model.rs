use vstd::prelude::*;
use crate::text::{contains_str, str_views};

verus! {

/// The sound source of a track.
#[derive(Clone, Copy, Debug, PartialEq, Eq, Structural)]
pub enum Waveform {
    Sine,
    Saw,
    Square,
    Tri,
    Pulse,
    Morph,
    SuperSaw,
    Wavetable,
    FmOp,
    Additive,
    Sync,
    PwmSweep,
    Harsh,
    Chip,
    Pluck,
    Strings,
    Brass,
    Organ,
    Bell,
    Glass,
    Vocal,
    Breath,
    PadWash,
    Click,
    Noise,
    Kick,
    Snare,
    Hat,
    Kick808,
    Snare808,
    Hat808,
    Cowbell808,
    Kick909,
    Snare909,
    Hat909,
    Kick78,
    Snare78,
    Hat78,
    Kick707,
    Snare707,
    Clap,
    CymbalCrash,
    CymbalRide,
    Tom,
    Rimshot,
    Shaker,
    Woodblock,
    Cowbell,
    Zap,
    Scratch,
    Impact,
    BassSlap,
    PianoElectric,
    DroneDark,
    NoiseWhite,
    NoisePink,
    NoiseBrown,
    NoiseBlue,
    NoisePurple,
    Sample,
}

/// The drum sources, whose note length is not stretched by a hold.
pub open spec fn spec_is_percussive(w: Waveform) -> bool {
    w == Waveform::Click
        || w == Waveform::Kick
        || w == Waveform::Snare
        || w == Waveform::Hat
        || w == Waveform::Kick808
        || w == Waveform::Snare808
        || w == Waveform::Hat808
        || w == Waveform::Cowbell808
        || w == Waveform::Kick909
        || w == Waveform::Snare909
        || w == Waveform::Hat909
        || w == Waveform::Kick78
        || w == Waveform::Snare78
        || w == Waveform::Hat78
        || w == Waveform::Kick707
        || w == Waveform::Snare707
        || w == Waveform::Clap
        || w == Waveform::CymbalCrash
        || w == Waveform::CymbalRide
        || w == Waveform::Tom
        || w == Waveform::Rimshot
        || w == Waveform::Shaker
        || w == Waveform::Woodblock
        || w == Waveform::Cowbell
        || w == Waveform::Zap
        || w == Waveform::Scratch
        || w == Waveform::Impact
}

/// Whether a source is a drum sound.
pub fn is_percussive(waveform: Waveform) -> (r: bool)
    ensures
        r == spec_is_percussive(waveform),
{
    match waveform {
        Waveform::Click | Waveform::Kick | Waveform::Snare | Waveform::Hat | Waveform::Kick808 | Waveform::Snare808 | Waveform::Hat808 | Waveform::Cowbell808 | Waveform::Kick909 | Waveform::Snare909 | Waveform::Hat909 | Waveform::Kick78 | Waveform::Snare78 | Waveform::Hat78 | Waveform::Kick707 | Waveform::Snare707 | Waveform::Clap | Waveform::CymbalCrash | Waveform::CymbalRide | Waveform::Tom | Waveform::Rimshot | Waveform::Shaker | Waveform::Woodblock | Waveform::Cowbell | Waveform::Zap | Waveform::Scratch | Waveform::Impact => true,
        _ => false,
    }
}

/// The source a name selects in a track definition.
pub open spec fn spec_waveform_named(name: Seq<char>) -> Option<Waveform> {
    if seq!["sine-synth"@].contains(name) {
        Some(Waveform::Sine)
    } else if seq!["saw-synth"@].contains(name) {
        Some(Waveform::Saw)
    } else if seq!["square-synth"@].contains(name) {
        Some(Waveform::Square)
    } else if seq!["tri-synth"@].contains(name) {
        Some(Waveform::Tri)
    } else if seq!["pulse"@, "pulse-synth"@].contains(name) {
        Some(Waveform::Pulse)
    } else if seq!["morph"@, "morph-synth"@].contains(name) {
        Some(Waveform::Morph)
    } else if seq!["supersaw"@, "supersaw-synth"@].contains(name) {
        Some(Waveform::SuperSaw)
    } else if seq!["wavetable"@, "wavetable-synth"@].contains(name) {
        Some(Waveform::Wavetable)
    } else if seq!["fm-op"@, "fm_op"@, "fm-op-synth"@].contains(name) {
        Some(Waveform::FmOp)
    } else if seq!["additive"@, "additive-synth"@].contains(name) {
        Some(Waveform::Additive)
    } else if seq!["sync"@, "sync-synth"@].contains(name) {
        Some(Waveform::Sync)
    } else if seq!["pwm-sweep"@, "pwm_sweep"@].contains(name) {
        Some(Waveform::PwmSweep)
    } else if seq!["harsh"@].contains(name) {
        Some(Waveform::Harsh)
    } else if seq!["chip"@].contains(name) {
        Some(Waveform::Chip)
    } else if seq!["pluck"@].contains(name) {
        Some(Waveform::Pluck)
    } else if seq!["strings"@].contains(name) {
        Some(Waveform::Strings)
    } else if seq!["brass"@].contains(name) {
        Some(Waveform::Brass)
    } else if seq!["organ"@].contains(name) {
        Some(Waveform::Organ)
    } else if seq!["bell"@].contains(name) {
        Some(Waveform::Bell)
    } else if seq!["glass"@].contains(name) {
        Some(Waveform::Glass)
    } else if seq!["vocal"@].contains(name) {
        Some(Waveform::Vocal)
    } else if seq!["breath"@].contains(name) {
        Some(Waveform::Breath)
    } else if seq!["pad-wash"@, "pad_wash"@].contains(name) {
        Some(Waveform::PadWash)
    } else if seq!["click"@].contains(name) {
        Some(Waveform::Click)
    } else if seq!["noise-synth"@].contains(name) {
        Some(Waveform::Noise)
    } else if seq!["kick-synth"@].contains(name) {
        Some(Waveform::Kick)
    } else if seq!["snare"@, "snare-synth"@].contains(name) {
        Some(Waveform::Snare)
    } else if seq!["hat"@, "hat-synth"@].contains(name) {
        Some(Waveform::Hat)
    } else if seq!["kick-808"@, "808-kick"@].contains(name) {
        Some(Waveform::Kick808)
    } else if seq!["snare-808"@, "808-snare"@].contains(name) {
        Some(Waveform::Snare808)
    } else if seq!["hat-808"@, "808-hat"@].contains(name) {
        Some(Waveform::Hat808)
    } else if seq!["cowbell-808"@, "808-cowbell"@].contains(name) {
        Some(Waveform::Cowbell808)
    } else if seq!["kick-909"@, "909-kick"@].contains(name) {
        Some(Waveform::Kick909)
    } else if seq!["snare-909"@, "909-snare"@].contains(name) {
        Some(Waveform::Snare909)
    } else if seq!["hat-909"@, "909-hat"@].contains(name) {
        Some(Waveform::Hat909)
    } else if seq!["kick-78"@, "78-kick"@].contains(name) {
        Some(Waveform::Kick78)
    } else if seq!["snare-78"@, "78-snare"@].contains(name) {
        Some(Waveform::Snare78)
    } else if seq!["hat-78"@, "78-hat"@].contains(name) {
        Some(Waveform::Hat78)
    } else if seq!["kick-707"@, "707-kick"@].contains(name) {
        Some(Waveform::Kick707)
    } else if seq!["snare-707"@, "707-snare"@].contains(name) {
        Some(Waveform::Snare707)
    } else if seq!["clap"@].contains(name) {
        Some(Waveform::Clap)
    } else if seq!["cymbal-crash"@, "cymbal_crash"@].contains(name) {
        Some(Waveform::CymbalCrash)
    } else if seq!["cymbal-ride"@, "cymbal_ride"@].contains(name) {
        Some(Waveform::CymbalRide)
    } else if seq!["tom"@].contains(name) {
        Some(Waveform::Tom)
    } else if seq!["rimshot"@].contains(name) {
        Some(Waveform::Rimshot)
    } else if seq!["shaker"@].contains(name) {
        Some(Waveform::Shaker)
    } else if seq!["woodblock"@].contains(name) {
        Some(Waveform::Woodblock)
    } else if seq!["cowbell"@].contains(name) {
        Some(Waveform::Cowbell)
    } else if seq!["zap"@].contains(name) {
        Some(Waveform::Zap)
    } else if seq!["scratch"@].contains(name) {
        Some(Waveform::Scratch)
    } else if seq!["impact"@].contains(name) {
        Some(Waveform::Impact)
    } else if seq!["bass-slap"@, "bass_slap"@].contains(name) {
        Some(Waveform::BassSlap)
    } else if seq!["piano-electric"@, "piano_electric"@].contains(name) {
        Some(Waveform::PianoElectric)
    } else if seq!["drone-dark"@, "drone_dark"@].contains(name) {
        Some(Waveform::DroneDark)
    } else if seq!["noise-white"@, "noise_white"@].contains(name) {
        Some(Waveform::NoiseWhite)
    } else if seq!["noise-pink"@, "noise_pink"@].contains(name) {
        Some(Waveform::NoisePink)
    } else if seq!["noise-brown"@, "noise_brown"@].contains(name) {
        Some(Waveform::NoiseBrown)
    } else if seq!["noise-blue"@, "noise_blue"@].contains(name) {
        Some(Waveform::NoiseBlue)
    } else if seq!["noise-purple"@, "noise_purple"@].contains(name) {
        Some(Waveform::NoisePurple)
    } else if seq!["sample"@].contains(name) {
        Some(Waveform::Sample)
    } else {
        None
    }
}

/// The source named `name`, or the error for an unknown one.
pub fn waveform_named(name: &str) -> (r: Result<Waveform, String>)
    ensures
        match spec_waveform_named(name@) {
            Some(w) => r == Ok::<Waveform, String>(w),
            None => r matches Err(m) && m@ == "unsupported source ':"@ + name@ + "'"@,
        },
{
    let names: Vec<&str> = vec!["sine-synth"];
    assert(str_views(names@) =~= seq!["sine-synth"@]);
    if contains_str(names.as_slice(), name) {
        return Ok(Waveform::Sine);
    }
    let names: Vec<&str> = vec!["saw-synth"];
    assert(str_views(names@) =~= seq!["saw-synth"@]);
    if contains_str(names.as_slice(), name) {
        return Ok(Waveform::Saw);
    }
    let names: Vec<&str> = vec!["square-synth"];
    assert(str_views(names@) =~= seq!["square-synth"@]);
    if contains_str(names.as_slice(), name) {
        return Ok(Waveform::Square);
    }
    let names: Vec<&str> = vec!["tri-synth"];
    assert(str_views(names@) =~= seq!["tri-synth"@]);
    if contains_str(names.as_slice(), name) {
        return Ok(Waveform::Tri);
    }
    let names: Vec<&str> = vec!["pulse", "pulse-synth"];
    assert(str_views(names@) =~= seq!["pulse"@, "pulse-synth"@]);
    if contains_str(names.as_slice(), name) {
        return Ok(Waveform::Pulse);
    }
    let names: Vec<&str> = vec!["morph", "morph-synth"];
    assert(str_views(names@) =~= seq!["morph"@, "morph-synth"@]);
    if contains_str(names.as_slice(), name) {
        return Ok(Waveform::Morph);
    }
    let names: Vec<&str> = vec!["supersaw", "supersaw-synth"];
    assert(str_views(names@) =~= seq!["supersaw"@, "supersaw-synth"@]);
    if contains_str(names.as_slice(), name) {
        return Ok(Waveform::SuperSaw);
    }
    let names: Vec<&str> = vec!["wavetable", "wavetable-synth"];
    assert(str_views(names@) =~= seq!["wavetable"@, "wavetable-synth"@]);
    if contains_str(names.as_slice(), name) {
        return Ok(Waveform::Wavetable);
    }
    let names: Vec<&str> = vec!["fm-op", "fm_op", "fm-op-synth"];
    assert(str_views(names@) =~= seq!["fm-op"@, "fm_op"@, "fm-op-synth"@]);
    if contains_str(names.as_slice(), name) {
        return Ok(Waveform::FmOp);
    }
    let names: Vec<&str> = vec!["additive", "additive-synth"];
    assert(str_views(names@) =~= seq!["additive"@, "additive-synth"@]);
    if contains_str(names.as_slice(), name) {
        return Ok(Waveform::Additive);
    }
    let names: Vec<&str> = vec!["sync", "sync-synth"];
    assert(str_views(names@) =~= seq!["sync"@, "sync-synth"@]);
    if contains_str(names.as_slice(), name) {
        return Ok(Waveform::Sync);
    }
    let names: Vec<&str> = vec!["pwm-sweep", "pwm_sweep"];
    assert(str_views(names@) =~= seq!["pwm-sweep"@, "pwm_sweep"@]);
    if contains_str(names.as_slice(), name) {
        return Ok(Waveform::PwmSweep);
    }
    let names: Vec<&str> = vec!["harsh"];
    assert(str_views(names@) =~= seq!["harsh"@]);
    if contains_str(names.as_slice(), name) {
        return Ok(Waveform::Harsh);
    }
    let names: Vec<&str> = vec!["chip"];
    assert(str_views(names@) =~= seq!["chip"@]);
    if contains_str(names.as_slice(), name) {
        return Ok(Waveform::Chip);
    }
    let names: Vec<&str> = vec!["pluck"];
    assert(str_views(names@) =~= seq!["pluck"@]);
    if contains_str(names.as_slice(), name) {
        return Ok(Waveform::Pluck);
    }
    let names: Vec<&str> = vec!["strings"];
    assert(str_views(names@) =~= seq!["strings"@]);
    if contains_str(names.as_slice(), name) {
        return Ok(Waveform::Strings);
    }
    let names: Vec<&str> = vec!["brass"];
    assert(str_views(names@) =~= seq!["brass"@]);
    if contains_str(names.as_slice(), name) {
        return Ok(Waveform::Brass);
    }
    let names: Vec<&str> = vec!["organ"];
    assert(str_views(names@) =~= seq!["organ"@]);
    if contains_str(names.as_slice(), name) {
        return Ok(Waveform::Organ);
    }
    let names: Vec<&str> = vec!["bell"];
    assert(str_views(names@) =~= seq!["bell"@]);
    if contains_str(names.as_slice(), name) {
        return Ok(Waveform::Bell);
    }
    let names: Vec<&str> = vec!["glass"];
    assert(str_views(names@) =~= seq!["glass"@]);
    if contains_str(names.as_slice(), name) {
        return Ok(Waveform::Glass);
    }
    let names: Vec<&str> = vec!["vocal"];
    assert(str_views(names@) =~= seq!["vocal"@]);
    if contains_str(names.as_slice(), name) {
        return Ok(Waveform::Vocal);
    }
    let names: Vec<&str> = vec!["breath"];
    assert(str_views(names@) =~= seq!["breath"@]);
    if contains_str(names.as_slice(), name) {
        return Ok(Waveform::Breath);
    }
    let names: Vec<&str> = vec!["pad-wash", "pad_wash"];
    assert(str_views(names@) =~= seq!["pad-wash"@, "pad_wash"@]);
    if contains_str(names.as_slice(), name) {
        return Ok(Waveform::PadWash);
    }
    let names: Vec<&str> = vec!["click"];
    assert(str_views(names@) =~= seq!["click"@]);
    if contains_str(names.as_slice(), name) {
        return Ok(Waveform::Click);
    }
    let names: Vec<&str> = vec!["noise-synth"];
    assert(str_views(names@) =~= seq!["noise-synth"@]);
    if contains_str(names.as_slice(), name) {
        return Ok(Waveform::Noise);
    }
    let names: Vec<&str> = vec!["kick-synth"];
    assert(str_views(names@) =~= seq!["kick-synth"@]);
    if contains_str(names.as_slice(), name) {
        return Ok(Waveform::Kick);
    }
    let names: Vec<&str> = vec!["snare", "snare-synth"];
    assert(str_views(names@) =~= seq!["snare"@, "snare-synth"@]);
    if contains_str(names.as_slice(), name) {
        return Ok(Waveform::Snare);
    }
    let names: Vec<&str> = vec!["hat", "hat-synth"];
    assert(str_views(names@) =~= seq!["hat"@, "hat-synth"@]);
    if contains_str(names.as_slice(), name) {
        return Ok(Waveform::Hat);
    }
    let names: Vec<&str> = vec!["kick-808", "808-kick"];
    assert(str_views(names@) =~= seq!["kick-808"@, "808-kick"@]);
    if contains_str(names.as_slice(), name) {
        return Ok(Waveform::Kick808);
    }
    let names: Vec<&str> = vec!["snare-808", "808-snare"];
    assert(str_views(names@) =~= seq!["snare-808"@, "808-snare"@]);
    if contains_str(names.as_slice(), name) {
        return Ok(Waveform::Snare808);
    }
    let names: Vec<&str> = vec!["hat-808", "808-hat"];
    assert(str_views(names@) =~= seq!["hat-808"@, "808-hat"@]);
    if contains_str(names.as_slice(), name) {
        return Ok(Waveform::Hat808);
    }
    let names: Vec<&str> = vec!["cowbell-808", "808-cowbell"];
    assert(str_views(names@) =~= seq!["cowbell-808"@, "808-cowbell"@]);
    if contains_str(names.as_slice(), name) {
        return Ok(Waveform::Cowbell808);
    }
    let names: Vec<&str> = vec!["kick-909", "909-kick"];
    assert(str_views(names@) =~= seq!["kick-909"@, "909-kick"@]);
    if contains_str(names.as_slice(), name) {
        return Ok(Waveform::Kick909);
    }
    let names: Vec<&str> = vec!["snare-909", "909-snare"];
    assert(str_views(names@) =~= seq!["snare-909"@, "909-snare"@]);
    if contains_str(names.as_slice(), name) {
        return Ok(Waveform::Snare909);
    }
    let names: Vec<&str> = vec!["hat-909", "909-hat"];
    assert(str_views(names@) =~= seq!["hat-909"@, "909-hat"@]);
    if contains_str(names.as_slice(), name) {
        return Ok(Waveform::Hat909);
    }
    let names: Vec<&str> = vec!["kick-78", "78-kick"];
    assert(str_views(names@) =~= seq!["kick-78"@, "78-kick"@]);
    if contains_str(names.as_slice(), name) {
        return Ok(Waveform::Kick78);
    }
    let names: Vec<&str> = vec!["snare-78", "78-snare"];
    assert(str_views(names@) =~= seq!["snare-78"@, "78-snare"@]);
    if contains_str(names.as_slice(), name) {
        return Ok(Waveform::Snare78);
    }
    let names: Vec<&str> = vec!["hat-78", "78-hat"];
    assert(str_views(names@) =~= seq!["hat-78"@, "78-hat"@]);
    if contains_str(names.as_slice(), name) {
        return Ok(Waveform::Hat78);
    }
    let names: Vec<&str> = vec!["kick-707", "707-kick"];
    assert(str_views(names@) =~= seq!["kick-707"@, "707-kick"@]);
    if contains_str(names.as_slice(), name) {
        return Ok(Waveform::Kick707);
    }
    let names: Vec<&str> = vec!["snare-707", "707-snare"];
    assert(str_views(names@) =~= seq!["snare-707"@, "707-snare"@]);
    if contains_str(names.as_slice(), name) {
        return Ok(Waveform::Snare707);
    }
    let names: Vec<&str> = vec!["clap"];
    assert(str_views(names@) =~= seq!["clap"@]);
    if contains_str(names.as_slice(), name) {
        return Ok(Waveform::Clap);
    }
    let names: Vec<&str> = vec!["cymbal-crash", "cymbal_crash"];
    assert(str_views(names@) =~= seq!["cymbal-crash"@, "cymbal_crash"@]);
    if contains_str(names.as_slice(), name) {
        return Ok(Waveform::CymbalCrash);
    }
    let names: Vec<&str> = vec!["cymbal-ride", "cymbal_ride"];
    assert(str_views(names@) =~= seq!["cymbal-ride"@, "cymbal_ride"@]);
    if contains_str(names.as_slice(), name) {
        return Ok(Waveform::CymbalRide);
    }
    let names: Vec<&str> = vec!["tom"];
    assert(str_views(names@) =~= seq!["tom"@]);
    if contains_str(names.as_slice(), name) {
        return Ok(Waveform::Tom);
    }
    let names: Vec<&str> = vec!["rimshot"];
    assert(str_views(names@) =~= seq!["rimshot"@]);
    if contains_str(names.as_slice(), name) {
        return Ok(Waveform::Rimshot);
    }
    let names: Vec<&str> = vec!["shaker"];
    assert(str_views(names@) =~= seq!["shaker"@]);
    if contains_str(names.as_slice(), name) {
        return Ok(Waveform::Shaker);
    }
    let names: Vec<&str> = vec!["woodblock"];
    assert(str_views(names@) =~= seq!["woodblock"@]);
    if contains_str(names.as_slice(), name) {
        return Ok(Waveform::Woodblock);
    }
    let names: Vec<&str> = vec!["cowbell"];
    assert(str_views(names@) =~= seq!["cowbell"@]);
    if contains_str(names.as_slice(), name) {
        return Ok(Waveform::Cowbell);
    }
    let names: Vec<&str> = vec!["zap"];
    assert(str_views(names@) =~= seq!["zap"@]);
    if contains_str(names.as_slice(), name) {
        return Ok(Waveform::Zap);
    }
    let names: Vec<&str> = vec!["scratch"];
    assert(str_views(names@) =~= seq!["scratch"@]);
    if contains_str(names.as_slice(), name) {
        return Ok(Waveform::Scratch);
    }
    let names: Vec<&str> = vec!["impact"];
    assert(str_views(names@) =~= seq!["impact"@]);
    if contains_str(names.as_slice(), name) {
        return Ok(Waveform::Impact);
    }
    let names: Vec<&str> = vec!["bass-slap", "bass_slap"];
    assert(str_views(names@) =~= seq!["bass-slap"@, "bass_slap"@]);
    if contains_str(names.as_slice(), name) {
        return Ok(Waveform::BassSlap);
    }
    let names: Vec<&str> = vec!["piano-electric", "piano_electric"];
    assert(str_views(names@) =~= seq!["piano-electric"@, "piano_electric"@]);
    if contains_str(names.as_slice(), name) {
        return Ok(Waveform::PianoElectric);
    }
    let names: Vec<&str> = vec!["drone-dark", "drone_dark"];
    assert(str_views(names@) =~= seq!["drone-dark"@, "drone_dark"@]);
    if contains_str(names.as_slice(), name) {
        return Ok(Waveform::DroneDark);
    }
    let names: Vec<&str> = vec!["noise-white", "noise_white"];
    assert(str_views(names@) =~= seq!["noise-white"@, "noise_white"@]);
    if contains_str(names.as_slice(), name) {
        return Ok(Waveform::NoiseWhite);
    }
    let names: Vec<&str> = vec!["noise-pink", "noise_pink"];
    assert(str_views(names@) =~= seq!["noise-pink"@, "noise_pink"@]);
    if contains_str(names.as_slice(), name) {
        return Ok(Waveform::NoisePink);
    }
    let names: Vec<&str> = vec!["noise-brown", "noise_brown"];
    assert(str_views(names@) =~= seq!["noise-brown"@, "noise_brown"@]);
    if contains_str(names.as_slice(), name) {
        return Ok(Waveform::NoiseBrown);
    }
    let names: Vec<&str> = vec!["noise-blue", "noise_blue"];
    assert(str_views(names@) =~= seq!["noise-blue"@, "noise_blue"@]);
    if contains_str(names.as_slice(), name) {
        return Ok(Waveform::NoiseBlue);
    }
    let names: Vec<&str> = vec!["noise-purple", "noise_purple"];
    assert(str_views(names@) =~= seq!["noise-purple"@, "noise_purple"@]);
    if contains_str(names.as_slice(), name) {
        return Ok(Waveform::NoisePurple);
    }
    let names: Vec<&str> = vec!["sample"];
    assert(str_views(names@) =~= seq!["sample"@]);
    if contains_str(names.as_slice(), name) {
        return Ok(Waveform::Sample);
    }
    let mut m = String::from_str("unsupported source ':");
    m.append(name);
    m.append("'");
    Err(m)
}

/// How a track's notes advance: every step, every hit, or every tick.
#[derive(Clone, Copy, Debug, PartialEq, Eq, Structural)]
pub enum NoteMode {
    Step,
    Hit,
    Tick,
}

/// How an effect parameter pattern advances.
#[derive(Clone, Copy, Debug, PartialEq, Eq, Structural)]
pub enum EffectParamPatternMode {
    Step,
    Hit,
    Gate,
}

/// Chance of a chance gate, in parts per million.
pub type ChancePpm = u32;

/// A chance of one half, in parts per million.
pub const HALF_CHANCE_PPM: u32 = 500_000;

/// What one gate slot does when its step comes round: fire or not, cycle
/// through a repeat pattern, or fire with some chance.
#[derive(Clone, Debug)]
pub enum GateCell {
    Static(bool),
    Repeat(Vec<bool>),
    Chance(ChancePpm),
}

pub ghost enum CellView {
    Static(bool),
    Repeat(Seq<bool>),
    Chance(u32),
}

impl GateCell {
    pub open spec fn view(&self) -> CellView {
        match self {
            GateCell::Static(g) => CellView::Static(*g),
            GateCell::Repeat(v) => CellView::Repeat(v@),
            GateCell::Chance(c) => CellView::Chance(*c),
        }
    }

    /// A copy of the cell.
    pub fn duplicate(&self) -> (r: GateCell)
        ensures
            r.view() == self.view(),
    {
        match self {
            GateCell::Static(g) => GateCell::Static(*g),
            GateCell::Repeat(v) => {
                let mut out: Vec<bool> = Vec::new();
                let mut i: usize = 0;
                while i < v.len()
                    invariant
                        i <= v@.len(),
                        out@ == v@.subrange(0, i as int),
                    decreases v@.len() - i,
                {
                    out.push(v[i]);
                    assert(v@.subrange(0, i + 1) =~= v@.subrange(0, i as int).push(v@[i as int]));
                    i = i + 1;
                }
                assert(v@.subrange(0, v@.len() as int) =~= v@);
                GateCell::Repeat(out)
            },
            GateCell::Chance(c) => GateCell::Chance(*c),
        }
    }
}

} // verus!

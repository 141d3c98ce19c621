use vstd::prelude::*;
use crate::text::{contains_str, str_views, str_eq};
use crate::arith::{decimal, push_decimal, parse_usize, parses_as_usize, digits_value, unsigned_digits};
use crate::text::chars_of;
use crate::gates::bool_grid;
use crate::text::{char_is_whitespace, is_white_space, string_of, push_char, trim, trim_chars, has_prefix, starts_with_chars, chars_eq, skip_white};
use crate::editor::{first_index_of, lemma_first_index_bounds, lines_of, split_lines};
use crate::editor::{is_bracket, token_stop, views, lemma_token_stop_range};
use crate::model::EffectParamPatternMode;
use crate::effects::{AmsProgram, DistortionKind, FilterKind, StereoSide, Vowel};

verus! {


/// The canonical spelling of a scene option name.
pub open spec fn spec_scene_option_canonical_key(key: Seq<char>) -> Seq<char> {
    if seq!["repeat"@, "repeats"@, "times"@, "loop"@].contains(key) {
        "repeat"@
    } else if seq!["steps"@, "length"@, "bars"@, "steps-of"@, "length-of"@, "loop-by"@].contains(key) {
        "steps"@
    } else if seq!["bar-steps"@, "bar-length"@, "bar-steps-of"@, "bar-length-of"@].contains(key) {
        "bar-steps"@
    } else {
        key
    }
}

/// The canonical spelling of a scene option name.
pub fn scene_option_canonical_key(key: &str) -> (r: &str)
    ensures
        r@ == spec_scene_option_canonical_key(key@),
{
    let names: Vec<&str> = vec!["repeat", "repeats", "times", "loop"];
    assert(str_views(names@) =~= seq!["repeat"@, "repeats"@, "times"@, "loop"@]);
    if contains_str(names.as_slice(), key) {
        return "repeat";
    }
    let names: Vec<&str> = vec!["steps", "length", "bars", "steps-of", "length-of", "loop-by"];
    assert(str_views(names@) =~= seq!["steps"@, "length"@, "bars"@, "steps-of"@, "length-of"@, "loop-by"@]);
    if contains_str(names.as_slice(), key) {
        return "steps";
    }
    let names: Vec<&str> = vec!["bar-steps", "bar-length", "bar-steps-of", "bar-length-of"];
    assert(str_views(names@) =~= seq!["bar-steps"@, "bar-length"@, "bar-steps-of"@, "bar-length-of"@]);
    if contains_str(names.as_slice(), key) {
        return "bar-steps";
    }
    key
}

/// The canonical spelling of a track parameter name.
pub open spec fn spec_track_param_canonical_key(key: Seq<char>) -> Seq<char> {
    if seq!["detune"@, "detune-cents"@].contains(key) {
        "detune"@
    } else if seq!["pulse-width"@, "pulse_width"@, "pw"@].contains(key) {
        "pulse-width"@
    } else if seq!["morph"@, "morph-pos"@, "morph_pos"@].contains(key) {
        "morph"@
    } else if seq!["unison-detune"@, "unison_detune"@].contains(key) {
        "unison-detune"@
    } else if seq!["unison-spread"@, "unison_spread"@, "spread"@].contains(key) {
        "unison-spread"@
    } else if seq!["fm-ratio"@, "fm_ratio"@].contains(key) {
        "fm-ratio"@
    } else if seq!["fm-depth"@, "fm_depth"@].contains(key) {
        "fm-depth"@
    } else if seq!["sample"@, "sample-path"@, "sample_path"@, "sample-data"@, "sample_data"@].contains(key) {
        "sample"@
    } else if seq!["choke"@, "cut"@].contains(key) {
        "choke"@
    } else {
        key
    }
}

/// The canonical spelling of a track parameter name.
pub fn track_param_canonical_key(key: &str) -> (r: &str)
    ensures
        r@ == spec_track_param_canonical_key(key@),
{
    let names: Vec<&str> = vec!["detune", "detune-cents"];
    assert(str_views(names@) =~= seq!["detune"@, "detune-cents"@]);
    if contains_str(names.as_slice(), key) {
        return "detune";
    }
    let names: Vec<&str> = vec!["pulse-width", "pulse_width", "pw"];
    assert(str_views(names@) =~= seq!["pulse-width"@, "pulse_width"@, "pw"@]);
    if contains_str(names.as_slice(), key) {
        return "pulse-width";
    }
    let names: Vec<&str> = vec!["morph", "morph-pos", "morph_pos"];
    assert(str_views(names@) =~= seq!["morph"@, "morph-pos"@, "morph_pos"@]);
    if contains_str(names.as_slice(), key) {
        return "morph";
    }
    let names: Vec<&str> = vec!["unison-detune", "unison_detune"];
    assert(str_views(names@) =~= seq!["unison-detune"@, "unison_detune"@]);
    if contains_str(names.as_slice(), key) {
        return "unison-detune";
    }
    let names: Vec<&str> = vec!["unison-spread", "unison_spread", "spread"];
    assert(str_views(names@) =~= seq!["unison-spread"@, "unison_spread"@, "spread"@]);
    if contains_str(names.as_slice(), key) {
        return "unison-spread";
    }
    let names: Vec<&str> = vec!["fm-ratio", "fm_ratio"];
    assert(str_views(names@) =~= seq!["fm-ratio"@, "fm_ratio"@]);
    if contains_str(names.as_slice(), key) {
        return "fm-ratio";
    }
    let names: Vec<&str> = vec!["fm-depth", "fm_depth"];
    assert(str_views(names@) =~= seq!["fm-depth"@, "fm_depth"@]);
    if contains_str(names.as_slice(), key) {
        return "fm-depth";
    }
    let names: Vec<&str> = vec!["sample", "sample-path", "sample_path", "sample-data", "sample_data"];
    assert(str_views(names@) =~= seq!["sample"@, "sample-path"@, "sample_path"@, "sample-data"@, "sample_data"@]);
    if contains_str(names.as_slice(), key) {
        return "sample";
    }
    let names: Vec<&str> = vec!["choke", "cut"];
    assert(str_views(names@) =~= seq!["choke"@, "cut"@]);
    if contains_str(names.as_slice(), key) {
        return "choke";
    }
    key
}

/// The parameter names that a post-processing effect form accepts.
pub open spec fn spec_offline_effect_param_keys(name: Seq<char>) -> Option<Seq<Seq<char>>> {
    if seq!["reverse"@].contains(name) {
        Some(seq!["mix"@])
    } else if seq!["tape-stop"@].contains(name) {
        Some(seq!["duration-pct"@, "duration"@])
    } else if seq!["granular"@].contains(name) {
        Some(seq!["grain-ms"@, "density"@, "spray"@, "pitch-spread"@])
    } else if seq!["granular-stretch"@].contains(name) {
        Some(seq!["rate"@, "grain-ms"@])
    } else if seq!["spectral-freeze"@].contains(name) {
        Some(seq!["freeze-pos"@, "sustain"@, "mix"@])
    } else if seq!["haas"@].contains(name) {
        Some(seq!["delay-ms"@, "side"@])
    } else if seq!["stereo-widen"@, "stereo_widen"@].contains(name) {
        Some(seq!["width"@])
    } else if seq!["stereo-imager"@, "stereo_imager"@].contains(name) {
        Some(seq!["width"@, "bass-mono-freq"@])
    } else if seq!["width-enhance"@, "width_enhance"@].contains(name) {
        Some(seq!["low-width"@, "high-width"@, "crossover"@])
    } else if seq!["freq-shift"@, "freq_shift"@].contains(name) {
        Some(seq!["shift-hz"@, "mix"@])
    } else if seq!["autopan"@, "auto-pan"@].contains(name) {
        Some(seq!["rate"@, "depth"@])
    } else if seq!["ping-pong-delay"@, "ping_pong_delay"@, "ping-pong"@].contains(name) {
        Some(seq!["time"@, "feedback"@, "mix"@])
    } else {
        None
    }
}

/// The parameter names that a post-processing effect form accepts.
#[verifier::rlimit(60)]
pub fn offline_effect_param_keys(name: &str) -> (r: Option<Vec<&'static str>>)
    ensures
        match spec_offline_effect_param_keys(name@) {
            Some(k) => r matches Some(v) && str_views(v@) == k,
            None => r is None,
        },
{
    let names: Vec<&str> = vec!["reverse"];
    assert(str_views(names@) =~= seq!["reverse"@]);
    if contains_str(names.as_slice(), name) {
        let keys: Vec<&'static str> = vec!["mix"];
        assert(str_views(keys@) =~= seq!["mix"@]);
        return Some(keys);
    }
    let names: Vec<&str> = vec!["tape-stop"];
    assert(str_views(names@) =~= seq!["tape-stop"@]);
    if contains_str(names.as_slice(), name) {
        let keys: Vec<&'static str> = vec!["duration-pct", "duration"];
        assert(str_views(keys@) =~= seq!["duration-pct"@, "duration"@]);
        return Some(keys);
    }
    let names: Vec<&str> = vec!["granular"];
    assert(str_views(names@) =~= seq!["granular"@]);
    if contains_str(names.as_slice(), name) {
        let keys: Vec<&'static str> = vec!["grain-ms", "density", "spray", "pitch-spread"];
        assert(str_views(keys@) =~= seq!["grain-ms"@, "density"@, "spray"@, "pitch-spread"@]);
        return Some(keys);
    }
    let names: Vec<&str> = vec!["granular-stretch"];
    assert(str_views(names@) =~= seq!["granular-stretch"@]);
    if contains_str(names.as_slice(), name) {
        let keys: Vec<&'static str> = vec!["rate", "grain-ms"];
        assert(str_views(keys@) =~= seq!["rate"@, "grain-ms"@]);
        return Some(keys);
    }
    let names: Vec<&str> = vec!["spectral-freeze"];
    assert(str_views(names@) =~= seq!["spectral-freeze"@]);
    if contains_str(names.as_slice(), name) {
        let keys: Vec<&'static str> = vec!["freeze-pos", "sustain", "mix"];
        assert(str_views(keys@) =~= seq!["freeze-pos"@, "sustain"@, "mix"@]);
        return Some(keys);
    }
    let names: Vec<&str> = vec!["haas"];
    assert(str_views(names@) =~= seq!["haas"@]);
    if contains_str(names.as_slice(), name) {
        let keys: Vec<&'static str> = vec!["delay-ms", "side"];
        assert(str_views(keys@) =~= seq!["delay-ms"@, "side"@]);
        return Some(keys);
    }
    let names: Vec<&str> = vec!["stereo-widen", "stereo_widen"];
    assert(str_views(names@) =~= seq!["stereo-widen"@, "stereo_widen"@]);
    if contains_str(names.as_slice(), name) {
        let keys: Vec<&'static str> = vec!["width"];
        assert(str_views(keys@) =~= seq!["width"@]);
        return Some(keys);
    }
    let names: Vec<&str> = vec!["stereo-imager", "stereo_imager"];
    assert(str_views(names@) =~= seq!["stereo-imager"@, "stereo_imager"@]);
    if contains_str(names.as_slice(), name) {
        let keys: Vec<&'static str> = vec!["width", "bass-mono-freq"];
        assert(str_views(keys@) =~= seq!["width"@, "bass-mono-freq"@]);
        return Some(keys);
    }
    let names: Vec<&str> = vec!["width-enhance", "width_enhance"];
    assert(str_views(names@) =~= seq!["width-enhance"@, "width_enhance"@]);
    if contains_str(names.as_slice(), name) {
        let keys: Vec<&'static str> = vec!["low-width", "high-width", "crossover"];
        assert(str_views(keys@) =~= seq!["low-width"@, "high-width"@, "crossover"@]);
        return Some(keys);
    }
    let names: Vec<&str> = vec!["freq-shift", "freq_shift"];
    assert(str_views(names@) =~= seq!["freq-shift"@, "freq_shift"@]);
    if contains_str(names.as_slice(), name) {
        let keys: Vec<&'static str> = vec!["shift-hz", "mix"];
        assert(str_views(keys@) =~= seq!["shift-hz"@, "mix"@]);
        return Some(keys);
    }
    let names: Vec<&str> = vec!["autopan", "auto-pan"];
    assert(str_views(names@) =~= seq!["autopan"@, "auto-pan"@]);
    if contains_str(names.as_slice(), name) {
        let keys: Vec<&'static str> = vec!["rate", "depth"];
        assert(str_views(keys@) =~= seq!["rate"@, "depth"@]);
        return Some(keys);
    }
    let names: Vec<&str> = vec!["ping-pong-delay", "ping_pong_delay", "ping-pong"];
    assert(str_views(names@) =~= seq!["ping-pong-delay"@, "ping_pong_delay"@, "ping-pong"@]);
    if contains_str(names.as_slice(), name) {
        let keys: Vec<&'static str> = vec!["time", "feedback", "mix"];
        assert(str_views(keys@) =~= seq!["time"@, "feedback"@, "mix"@]);
        return Some(keys);
    }
    None
}

/// The parameter names that a track effect form accepts.
pub open spec fn spec_live_effect_param_keys(name: Seq<char>) -> Option<Seq<Seq<char>>> {
    if seq!["filter"@].contains(name) {
        Some(seq!["type"@, "cutoff"@, "res"@, "resonance"@, "gain-db"@, "gain_db"@])
    } else if seq!["comb"@].contains(name) {
        Some(seq!["delay-ms"@, "delay"@, "feedback"@, "mix"@])
    } else if seq!["formant"@].contains(name) {
        Some(seq!["vowel"@, "mix"@])
    } else if seq!["distort"@, "distortion"@].contains(name) {
        Some(seq!["type"@, "drive"@])
    } else if seq!["bitcrush"@].contains(name) {
        Some(seq!["bits"@, "bit-depth"@, "rate"@, "sample-rate-reduction"@])
    } else if seq!["delay"@].contains(name) {
        Some(seq!["time"@, "feedback"@, "mix"@])
    } else if seq!["wavefolder"@, "fold"@].contains(name) {
        Some(seq!["folds"@, "gain"@, "symmetry"@])
    } else if seq!["resonator"@].contains(name) {
        Some(seq!["freq"@, "decay"@, "mix"@, "harmonics"@])
    } else if seq!["lofi"@, "lo-fi"@].contains(name) {
        Some(seq!["amount"@, "intensity"@])
    } else if seq!["vinyl"@].contains(name) {
        Some(seq!["crackle"@, "hiss"@, "wow"@])
    } else if seq!["sub-bass"@, "subbass"@].contains(name) {
        Some(seq!["mix"@])
    } else if seq!["sidechain"@].contains(name) {
        Some(seq!["rate"@, "depth"@, "shape"@])
    } else if seq!["radio"@].contains(name) {
        Some(seq!["intensity"@])
    } else if seq!["telephone"@].contains(name) {
        Some(seq!["quality"@])
    } else if seq!["underwater"@].contains(name) {
        Some(seq!["depth"@, "depth-amount"@])
    } else if seq!["crystal"@].contains(name) {
        Some(seq!["brightness"@, "decay"@])
    } else if seq!["dc-remove"@, "dc-block"@].contains(name) {
        Some(Seq::<Seq<char>>::empty())
    } else if seq!["pitch-shift"@].contains(name) {
        Some(seq!["semitones"@, "mix"@])
    } else if seq!["harmonizer"@].contains(name) {
        Some(seq!["interval"@, "mix"@])
    } else if seq!["octaver"@].contains(name) {
        Some(seq!["octave-up"@, "octave-down"@])
    } else if seq!["shimmer"@].contains(name) {
        Some(seq!["shift-semitones"@, "feedback"@, "mix"@])
    } else if seq!["stutter"@, "granular-stutter"@].contains(name) {
        Some(seq!["grain-size-ms"@, "grain-ms"@, "repeats"@, "mix"@])
    } else if seq!["glitch"@].contains(name) {
        Some(seq!["density"@, "slice-ms"@])
    } else if seq!["fade"@].contains(name) {
        Some(seq!["fade-in-ms"@, "fade-out-ms"@, "duration"@])
    } else if seq!["adsr"@, "asdr"@].contains(name) {
        Some(seq!["attack"@, "a"@, "decay"@, "d"@, "sustain"@, "s"@, "release"@, "r"@, "duration"@])
    } else if seq!["doppler"@].contains(name) {
        Some(seq!["speed"@, "depth"@])
    } else if seq!["maximizer"@].contains(name) {
        Some(seq!["ceiling"@, "warmth"@, "release-ms"@])
    } else if seq!["multiband-comp"@].contains(name) {
        Some(seq!["low-thresh"@, "mid-thresh"@, "high-thresh"@, "crossover-low"@, "crossover-high"@])
    } else if seq!["harmonic-enhance"@].contains(name) {
        Some(seq!["low-harmonics"@, "high-harmonics"@, "air"@])
    } else if seq!["body"@].contains(name) {
        Some(seq!["size"@, "tone"@, "mix"@])
    } else if seq!["warmth"@].contains(name) {
        Some(seq!["amount"@])
    } else if seq!["spatial"@].contains(name) {
        Some(seq!["room-size"@, "position"@, "height"@])
    } else if seq!["parallel-comp"@, "parallel-compressor"@, "ny-comp"@].contains(name) {
        Some(seq!["threshold"@, "ratio"@, "mix"@])
    } else if seq!["tremolo"@].contains(name) {
        Some(seq!["rate"@, "depth"@])
    } else if seq!["chorus"@].contains(name) {
        Some(seq!["rate"@, "depth"@, "voices"@, "mix"@])
    } else if seq!["dimension"@].contains(name) {
        Some(seq!["mode"@])
    } else if seq!["ensemble"@].contains(name) {
        Some(seq!["voices"@, "depth"@, "rate"@])
    } else if seq!["ce1-chorus"@, "ce-1"@].contains(name) {
        Some(seq!["rate"@, "intensity"@])
    } else if seq!["re301-chorus"@, "re-301-chorus"@].contains(name) {
        Some(seq!["rate"@, "depth"@, "tone"@])
    } else if seq!["dimension-d"@].contains(name) {
        Some(seq!["mode"@])
    } else if seq!["h3000"@].contains(name) {
        Some(seq!["detune-cents"@, "delay-ms"@, "feedback"@, "mix"@])
    } else if seq!["flanger"@].contains(name) {
        Some(seq!["rate"@, "depth"@, "feedback"@, "mix"@])
    } else if seq!["phaser"@].contains(name) {
        Some(seq!["rate"@, "depth"@, "stages"@, "mix"@])
    } else if seq!["small-stone"@].contains(name) {
        Some(seq!["rate"@, "depth"@, "feedback"@, "color"@])
    } else if seq!["vibrato"@].contains(name) {
        Some(seq!["rate"@, "depth"@])
    } else if seq!["ring-mod"@, "ringmod"@].contains(name) {
        Some(seq!["freq"@, "mix"@])
    } else if seq!["arp-ring-mod"@].contains(name) {
        Some(seq!["freq"@, "depth"@, "mix"@, "diode-curve"@])
    } else if seq!["compressor"@].contains(name) {
        Some(seq!["threshold"@, "ratio"@, "attack"@, "release"@, "makeup"@, "makeup-gain"@])
    } else if seq!["fairchild"@].contains(name) {
        Some(seq!["input-gain"@, "threshold"@, "time-constant"@, "mix"@])
    } else if seq!["ssl-comp"@].contains(name) {
        Some(seq!["threshold"@, "ratio"@, "attack-ms"@, "release-ms"@, "makeup-db"@])
    } else if seq!["dbx160"@].contains(name) {
        Some(seq!["threshold"@, "ratio"@])
    } else if seq!["la2a"@].contains(name) {
        Some(seq!["peak-reduction"@, "mode"@])
    } else if seq!["1176"@, "urei-1176"@].contains(name) {
        Some(seq!["input-gain"@, "ratio"@, "attack"@, "release"@])
    } else if seq!["limiter"@].contains(name) {
        Some(seq!["ceiling"@, "release"@])
    } else if seq!["gate"@].contains(name) {
        Some(seq!["threshold"@, "attack"@, "release"@])
    } else if seq!["transient"@, "transient-shaper"@].contains(name) {
        Some(seq!["attack-gain"@, "sustain-gain"@, "sensitivity"@])
    } else if seq!["reverb"@].contains(name) {
        Some(seq!["decay"@, "mix"@])
    } else if seq!["spring-reverb"@].contains(name) {
        Some(seq!["decay"@, "tone"@, "mix"@, "drip"@])
    } else if seq!["emt-plate"@].contains(name) {
        Some(seq!["decay"@, "damping"@, "mix"@, "pre-delay-ms"@])
    } else if seq!["lexicon-224"@].contains(name) {
        Some(seq!["size"@, "decay"@, "damping"@, "pre-delay-ms"@, "mix"@])
    } else if seq!["ams-reverb"@].contains(name) {
        Some(seq!["decay"@, "damping"@, "program"@, "mix"@])
    } else if seq!["tube"@, "tube-saturation"@].contains(name) {
        Some(seq!["drive"@, "gain"@, "asymmetry"@])
    } else if seq!["neve-preamp"@].contains(name) {
        Some(seq!["gain"@, "warmth"@])
    } else if seq!["marshall-amp"@].contains(name) {
        Some(seq!["gain"@, "tone"@, "presence"@])
    } else if seq!["vox-ac30"@].contains(name) {
        Some(seq!["gain"@, "treble"@, "cut"@])
    } else if seq!["fender-twin"@].contains(name) {
        Some(seq!["volume"@, "gain"@, "treble"@, "bass"@, "reverb-mix"@])
    } else if seq!["pultec-eq"@, "pultec"@].contains(name) {
        Some(seq!["low-boost"@, "low-atten"@, "low-freq"@, "high-boost"@, "high-atten"@, "high-freq"@])
    } else if seq!["tape"@].contains(name) {
        Some(seq!["saturation"@, "input-level"@, "wow"@, "flutter"@])
    } else if seq!["studer-tape"@].contains(name) {
        Some(seq!["input-level"@, "speed"@, "bias"@])
    } else if seq!["exciter"@].contains(name) {
        Some(seq!["amount"@, "cutoff"@])
    } else if seq!["moog"@, "moog-ladder"@].contains(name) {
        Some(seq!["cutoff"@, "res"@, "resonance"@, "drive"@])
    } else if seq!["prophet-filter"@].contains(name) {
        Some(seq!["cutoff"@, "res"@, "resonance"@])
    } else if seq!["obxa-filter"@].contains(name) {
        Some(seq!["cutoff"@, "res"@, "resonance"@, "type"@])
    } else if seq!["303"@, "303-filter"@, "tb303"@, "tb-303"@].contains(name) {
        Some(seq!["cutoff"@, "res"@, "resonance"@, "env-mod"@, "accent"@, "decay"@])
    } else if seq!["space-echo"@, "re201"@, "re-201"@].contains(name) {
        Some(seq!["time"@, "feedback"@, "wow"@, "flutter"@, "tone"@, "spring-mix"@, "mix"@])
    } else if seq!["tc2290"@, "tc-2290"@].contains(name) {
        Some(seq!["time-ms"@, "feedback"@, "mod-rate"@, "mod-depth"@, "mix"@])
    } else if seq!["sem-filter"@, "sem"@].contains(name) {
        Some(seq!["cutoff"@, "res"@, "resonance"@, "type"@])
    } else if seq!["ms20"@, "ms20-filter"@].contains(name) {
        Some(seq!["cutoff"@, "res"@, "resonance"@])
    } else if seq!["wasp-filter"@].contains(name) {
        Some(seq!["cutoff"@, "res"@, "resonance"@])
    } else if seq!["juno-hpf"@].contains(name) {
        Some(seq!["cutoff"@, "res"@, "resonance"@])
    } else if seq!["buchla-lpg"@, "lpg"@].contains(name) {
        Some(seq!["strike"@, "decay"@, "res"@, "resonance"@])
    } else {
        None
    }
}

/// No effect name is both a post-processing effect and a track effect: a name
/// that the post-processing table knows is unknown to the track-effect table.
pub proof fn lemma_offline_and_live_effects_disjoint(name: Seq<char>)
    requires
        spec_offline_effect_param_keys(name) is Some,
    ensures
        spec_live_effect_param_keys(name) is None,
{
    reveal_strlit("reverse");
    reveal_strlit("tape-stop");
    reveal_strlit("granular");
    reveal_strlit("granular-stretch");
    reveal_strlit("spectral-freeze");
    reveal_strlit("haas");
    reveal_strlit("stereo-widen");
    reveal_strlit("stereo_widen");
    reveal_strlit("stereo-imager");
    reveal_strlit("stereo_imager");
    reveal_strlit("width-enhance");
    reveal_strlit("width_enhance");
    reveal_strlit("freq-shift");
    reveal_strlit("freq_shift");
    reveal_strlit("autopan");
    reveal_strlit("auto-pan");
    reveal_strlit("ping-pong-delay");
    reveal_strlit("ping_pong_delay");
    reveal_strlit("ping-pong");
    reveal_strlit("filter");
    reveal_strlit("comb");
    reveal_strlit("formant");
    reveal_strlit("distort");
    reveal_strlit("distortion");
    reveal_strlit("bitcrush");
    reveal_strlit("delay");
    reveal_strlit("wavefolder");
    reveal_strlit("fold");
    reveal_strlit("resonator");
    reveal_strlit("lofi");
    reveal_strlit("lo-fi");
    reveal_strlit("vinyl");
    reveal_strlit("sub-bass");
    reveal_strlit("subbass");
    reveal_strlit("sidechain");
    reveal_strlit("radio");
    reveal_strlit("telephone");
    reveal_strlit("underwater");
    reveal_strlit("crystal");
    reveal_strlit("dc-remove");
    reveal_strlit("dc-block");
    reveal_strlit("pitch-shift");
    reveal_strlit("harmonizer");
    reveal_strlit("octaver");
    reveal_strlit("shimmer");
    reveal_strlit("stutter");
    reveal_strlit("granular-stutter");
    reveal_strlit("glitch");
    reveal_strlit("fade");
    reveal_strlit("adsr");
    reveal_strlit("asdr");
    reveal_strlit("doppler");
    reveal_strlit("maximizer");
    reveal_strlit("multiband-comp");
    reveal_strlit("harmonic-enhance");
    reveal_strlit("body");
    reveal_strlit("warmth");
    reveal_strlit("spatial");
    reveal_strlit("parallel-comp");
    reveal_strlit("parallel-compressor");
    reveal_strlit("ny-comp");
    reveal_strlit("tremolo");
    reveal_strlit("chorus");
    reveal_strlit("dimension");
    reveal_strlit("ensemble");
    reveal_strlit("ce1-chorus");
    reveal_strlit("ce-1");
    reveal_strlit("re301-chorus");
    reveal_strlit("re-301-chorus");
    reveal_strlit("dimension-d");
    reveal_strlit("h3000");
    reveal_strlit("flanger");
    reveal_strlit("phaser");
    reveal_strlit("small-stone");
    reveal_strlit("vibrato");
    reveal_strlit("ring-mod");
    reveal_strlit("ringmod");
    reveal_strlit("arp-ring-mod");
    reveal_strlit("compressor");
    reveal_strlit("fairchild");
    reveal_strlit("ssl-comp");
    reveal_strlit("dbx160");
    reveal_strlit("la2a");
    reveal_strlit("1176");
    reveal_strlit("urei-1176");
    reveal_strlit("limiter");
    reveal_strlit("gate");
    reveal_strlit("transient");
    reveal_strlit("transient-shaper");
    reveal_strlit("reverb");
    reveal_strlit("spring-reverb");
    reveal_strlit("emt-plate");
    reveal_strlit("lexicon-224");
    reveal_strlit("ams-reverb");
    reveal_strlit("tube");
    reveal_strlit("tube-saturation");
    reveal_strlit("neve-preamp");
    reveal_strlit("marshall-amp");
    reveal_strlit("vox-ac30");
    reveal_strlit("fender-twin");
    reveal_strlit("pultec-eq");
    reveal_strlit("pultec");
    reveal_strlit("tape");
    reveal_strlit("studer-tape");
    reveal_strlit("exciter");
    reveal_strlit("moog");
    reveal_strlit("moog-ladder");
    reveal_strlit("prophet-filter");
    reveal_strlit("obxa-filter");
    reveal_strlit("303");
    reveal_strlit("303-filter");
    reveal_strlit("tb303");
    reveal_strlit("tb-303");
    reveal_strlit("space-echo");
    reveal_strlit("re201");
    reveal_strlit("re-201");
    reveal_strlit("tc2290");
    reveal_strlit("tc-2290");
    reveal_strlit("sem-filter");
    reveal_strlit("sem");
    reveal_strlit("ms20");
    reveal_strlit("ms20-filter");
    reveal_strlit("wasp-filter");
    reveal_strlit("juno-hpf");
    reveal_strlit("buchla-lpg");
    reveal_strlit("lpg");
    if name == "reverse"@ {
        assert(name.len() == 7);
        assert(name[0] == 'r');
        assert(name[1] == 'e');
        assert(name[2] == 'v');
        assert(name[3] == 'e');
        assert(name[4] == 'r');
        assert(name[5] == 's');
        assert(name[6] == 'e');
    } else if name == "tape-stop"@ {
        assert(name.len() == 9);
        assert(name[0] == 't');
        assert(name[1] == 'a');
        assert(name[2] == 'p');
        assert(name[3] == 'e');
        assert(name[4] == '-');
        assert(name[5] == 's');
        assert(name[6] == 't');
        assert(name[7] == 'o');
        assert(name[8] == 'p');
    } else if name == "granular"@ {
        assert(name.len() == 8);
        assert(name[0] == 'g');
        assert(name[1] == 'r');
        assert(name[2] == 'a');
        assert(name[3] == 'n');
        assert(name[4] == 'u');
        assert(name[5] == 'l');
        assert(name[6] == 'a');
        assert(name[7] == 'r');
    } else if name == "granular-stretch"@ {
        assert(name.len() == 16);
        assert(name[0] == 'g');
        assert(name[1] == 'r');
        assert(name[2] == 'a');
        assert(name[3] == 'n');
        assert(name[4] == 'u');
        assert(name[5] == 'l');
        assert(name[6] == 'a');
        assert(name[7] == 'r');
        assert(name[8] == '-');
        assert(name[9] == 's');
        assert(name[10] == 't');
        assert(name[11] == 'r');
        assert(name[12] == 'e');
        assert(name[13] == 't');
        assert(name[14] == 'c');
        assert(name[15] == 'h');
    } else if name == "spectral-freeze"@ {
        assert(name.len() == 15);
        assert(name[0] == 's');
        assert(name[1] == 'p');
        assert(name[2] == 'e');
        assert(name[3] == 'c');
        assert(name[4] == 't');
        assert(name[5] == 'r');
        assert(name[6] == 'a');
        assert(name[7] == 'l');
        assert(name[8] == '-');
        assert(name[9] == 'f');
        assert(name[10] == 'r');
        assert(name[11] == 'e');
        assert(name[12] == 'e');
        assert(name[13] == 'z');
        assert(name[14] == 'e');
    } else if name == "haas"@ {
        assert(name.len() == 4);
        assert(name[0] == 'h');
        assert(name[1] == 'a');
        assert(name[2] == 'a');
        assert(name[3] == 's');
    } else if name == "stereo-widen"@ {
        assert(name.len() == 12);
        assert(name[0] == 's');
        assert(name[1] == 't');
        assert(name[2] == 'e');
        assert(name[3] == 'r');
        assert(name[4] == 'e');
        assert(name[5] == 'o');
        assert(name[6] == '-');
        assert(name[7] == 'w');
        assert(name[8] == 'i');
        assert(name[9] == 'd');
        assert(name[10] == 'e');
        assert(name[11] == 'n');
    } else if name == "stereo_widen"@ {
        assert(name.len() == 12);
        assert(name[0] == 's');
        assert(name[1] == 't');
        assert(name[2] == 'e');
        assert(name[3] == 'r');
        assert(name[4] == 'e');
        assert(name[5] == 'o');
        assert(name[6] == '_');
        assert(name[7] == 'w');
        assert(name[8] == 'i');
        assert(name[9] == 'd');
        assert(name[10] == 'e');
        assert(name[11] == 'n');
    } else if name == "stereo-imager"@ {
        assert(name.len() == 13);
        assert(name[0] == 's');
        assert(name[1] == 't');
        assert(name[2] == 'e');
        assert(name[3] == 'r');
        assert(name[4] == 'e');
        assert(name[5] == 'o');
        assert(name[6] == '-');
        assert(name[7] == 'i');
        assert(name[8] == 'm');
        assert(name[9] == 'a');
        assert(name[10] == 'g');
        assert(name[11] == 'e');
        assert(name[12] == 'r');
    } else if name == "stereo_imager"@ {
        assert(name.len() == 13);
        assert(name[0] == 's');
        assert(name[1] == 't');
        assert(name[2] == 'e');
        assert(name[3] == 'r');
        assert(name[4] == 'e');
        assert(name[5] == 'o');
        assert(name[6] == '_');
        assert(name[7] == 'i');
        assert(name[8] == 'm');
        assert(name[9] == 'a');
        assert(name[10] == 'g');
        assert(name[11] == 'e');
        assert(name[12] == 'r');
    } else if name == "width-enhance"@ {
        assert(name.len() == 13);
        assert(name[0] == 'w');
        assert(name[1] == 'i');
        assert(name[2] == 'd');
        assert(name[3] == 't');
        assert(name[4] == 'h');
        assert(name[5] == '-');
        assert(name[6] == 'e');
        assert(name[7] == 'n');
        assert(name[8] == 'h');
        assert(name[9] == 'a');
        assert(name[10] == 'n');
        assert(name[11] == 'c');
        assert(name[12] == 'e');
    } else if name == "width_enhance"@ {
        assert(name.len() == 13);
        assert(name[0] == 'w');
        assert(name[1] == 'i');
        assert(name[2] == 'd');
        assert(name[3] == 't');
        assert(name[4] == 'h');
        assert(name[5] == '_');
        assert(name[6] == 'e');
        assert(name[7] == 'n');
        assert(name[8] == 'h');
        assert(name[9] == 'a');
        assert(name[10] == 'n');
        assert(name[11] == 'c');
        assert(name[12] == 'e');
    } else if name == "freq-shift"@ {
        assert(name.len() == 10);
        assert(name[0] == 'f');
        assert(name[1] == 'r');
        assert(name[2] == 'e');
        assert(name[3] == 'q');
        assert(name[4] == '-');
        assert(name[5] == 's');
        assert(name[6] == 'h');
        assert(name[7] == 'i');
        assert(name[8] == 'f');
        assert(name[9] == 't');
    } else if name == "freq_shift"@ {
        assert(name.len() == 10);
        assert(name[0] == 'f');
        assert(name[1] == 'r');
        assert(name[2] == 'e');
        assert(name[3] == 'q');
        assert(name[4] == '_');
        assert(name[5] == 's');
        assert(name[6] == 'h');
        assert(name[7] == 'i');
        assert(name[8] == 'f');
        assert(name[9] == 't');
    } else if name == "autopan"@ {
        assert(name.len() == 7);
        assert(name[0] == 'a');
        assert(name[1] == 'u');
        assert(name[2] == 't');
        assert(name[3] == 'o');
        assert(name[4] == 'p');
        assert(name[5] == 'a');
        assert(name[6] == 'n');
    } else if name == "auto-pan"@ {
        assert(name.len() == 8);
        assert(name[0] == 'a');
        assert(name[1] == 'u');
        assert(name[2] == 't');
        assert(name[3] == 'o');
        assert(name[4] == '-');
        assert(name[5] == 'p');
        assert(name[6] == 'a');
        assert(name[7] == 'n');
    } else if name == "ping-pong-delay"@ {
        assert(name.len() == 15);
        assert(name[0] == 'p');
        assert(name[1] == 'i');
        assert(name[2] == 'n');
        assert(name[3] == 'g');
        assert(name[4] == '-');
        assert(name[5] == 'p');
        assert(name[6] == 'o');
        assert(name[7] == 'n');
        assert(name[8] == 'g');
        assert(name[9] == '-');
        assert(name[10] == 'd');
        assert(name[11] == 'e');
        assert(name[12] == 'l');
        assert(name[13] == 'a');
        assert(name[14] == 'y');
    } else if name == "ping_pong_delay"@ {
        assert(name.len() == 15);
        assert(name[0] == 'p');
        assert(name[1] == 'i');
        assert(name[2] == 'n');
        assert(name[3] == 'g');
        assert(name[4] == '_');
        assert(name[5] == 'p');
        assert(name[6] == 'o');
        assert(name[7] == 'n');
        assert(name[8] == 'g');
        assert(name[9] == '_');
        assert(name[10] == 'd');
        assert(name[11] == 'e');
        assert(name[12] == 'l');
        assert(name[13] == 'a');
        assert(name[14] == 'y');
    } else if name == "ping-pong"@ {
        assert(name.len() == 9);
        assert(name[0] == 'p');
        assert(name[1] == 'i');
        assert(name[2] == 'n');
        assert(name[3] == 'g');
        assert(name[4] == '-');
        assert(name[5] == 'p');
        assert(name[6] == 'o');
        assert(name[7] == 'n');
        assert(name[8] == 'g');
    } else {
        assert(false);
    }
}

/// The parameter names that a track effect form accepts.
#[verifier::rlimit(60)]
pub fn live_effect_param_keys(name: &str) -> (r: Option<Vec<&'static str>>)
    ensures
        match spec_live_effect_param_keys(name@) {
            Some(k) => r matches Some(v) && str_views(v@) == k,
            None => r is None,
        },
{
    let names: Vec<&str> = vec!["filter"];
    assert(str_views(names@) =~= seq!["filter"@]);
    if contains_str(names.as_slice(), name) {
        let keys: Vec<&'static str> = vec!["type", "cutoff", "res", "resonance", "gain-db", "gain_db"];
        assert(str_views(keys@) =~= seq!["type"@, "cutoff"@, "res"@, "resonance"@, "gain-db"@, "gain_db"@]);
        return Some(keys);
    }
    let names: Vec<&str> = vec!["comb"];
    assert(str_views(names@) =~= seq!["comb"@]);
    if contains_str(names.as_slice(), name) {
        let keys: Vec<&'static str> = vec!["delay-ms", "delay", "feedback", "mix"];
        assert(str_views(keys@) =~= seq!["delay-ms"@, "delay"@, "feedback"@, "mix"@]);
        return Some(keys);
    }
    let names: Vec<&str> = vec!["formant"];
    assert(str_views(names@) =~= seq!["formant"@]);
    if contains_str(names.as_slice(), name) {
        let keys: Vec<&'static str> = vec!["vowel", "mix"];
        assert(str_views(keys@) =~= seq!["vowel"@, "mix"@]);
        return Some(keys);
    }
    let names: Vec<&str> = vec!["distort", "distortion"];
    assert(str_views(names@) =~= seq!["distort"@, "distortion"@]);
    if contains_str(names.as_slice(), name) {
        let keys: Vec<&'static str> = vec!["type", "drive"];
        assert(str_views(keys@) =~= seq!["type"@, "drive"@]);
        return Some(keys);
    }
    let names: Vec<&str> = vec!["bitcrush"];
    assert(str_views(names@) =~= seq!["bitcrush"@]);
    if contains_str(names.as_slice(), name) {
        let keys: Vec<&'static str> = vec!["bits", "bit-depth", "rate", "sample-rate-reduction"];
        assert(str_views(keys@) =~= seq!["bits"@, "bit-depth"@, "rate"@, "sample-rate-reduction"@]);
        return Some(keys);
    }
    let names: Vec<&str> = vec!["delay"];
    assert(str_views(names@) =~= seq!["delay"@]);
    if contains_str(names.as_slice(), name) {
        let keys: Vec<&'static str> = vec!["time", "feedback", "mix"];
        assert(str_views(keys@) =~= seq!["time"@, "feedback"@, "mix"@]);
        return Some(keys);
    }
    let names: Vec<&str> = vec!["wavefolder", "fold"];
    assert(str_views(names@) =~= seq!["wavefolder"@, "fold"@]);
    if contains_str(names.as_slice(), name) {
        let keys: Vec<&'static str> = vec!["folds", "gain", "symmetry"];
        assert(str_views(keys@) =~= seq!["folds"@, "gain"@, "symmetry"@]);
        return Some(keys);
    }
    let names: Vec<&str> = vec!["resonator"];
    assert(str_views(names@) =~= seq!["resonator"@]);
    if contains_str(names.as_slice(), name) {
        let keys: Vec<&'static str> = vec!["freq", "decay", "mix", "harmonics"];
        assert(str_views(keys@) =~= seq!["freq"@, "decay"@, "mix"@, "harmonics"@]);
        return Some(keys);
    }
    let names: Vec<&str> = vec!["lofi", "lo-fi"];
    assert(str_views(names@) =~= seq!["lofi"@, "lo-fi"@]);
    if contains_str(names.as_slice(), name) {
        let keys: Vec<&'static str> = vec!["amount", "intensity"];
        assert(str_views(keys@) =~= seq!["amount"@, "intensity"@]);
        return Some(keys);
    }
    let names: Vec<&str> = vec!["vinyl"];
    assert(str_views(names@) =~= seq!["vinyl"@]);
    if contains_str(names.as_slice(), name) {
        let keys: Vec<&'static str> = vec!["crackle", "hiss", "wow"];
        assert(str_views(keys@) =~= seq!["crackle"@, "hiss"@, "wow"@]);
        return Some(keys);
    }
    let names: Vec<&str> = vec!["sub-bass", "subbass"];
    assert(str_views(names@) =~= seq!["sub-bass"@, "subbass"@]);
    if contains_str(names.as_slice(), name) {
        let keys: Vec<&'static str> = vec!["mix"];
        assert(str_views(keys@) =~= seq!["mix"@]);
        return Some(keys);
    }
    let names: Vec<&str> = vec!["sidechain"];
    assert(str_views(names@) =~= seq!["sidechain"@]);
    if contains_str(names.as_slice(), name) {
        let keys: Vec<&'static str> = vec!["rate", "depth", "shape"];
        assert(str_views(keys@) =~= seq!["rate"@, "depth"@, "shape"@]);
        return Some(keys);
    }
    let names: Vec<&str> = vec!["radio"];
    assert(str_views(names@) =~= seq!["radio"@]);
    if contains_str(names.as_slice(), name) {
        let keys: Vec<&'static str> = vec!["intensity"];
        assert(str_views(keys@) =~= seq!["intensity"@]);
        return Some(keys);
    }
    let names: Vec<&str> = vec!["telephone"];
    assert(str_views(names@) =~= seq!["telephone"@]);
    if contains_str(names.as_slice(), name) {
        let keys: Vec<&'static str> = vec!["quality"];
        assert(str_views(keys@) =~= seq!["quality"@]);
        return Some(keys);
    }
    let names: Vec<&str> = vec!["underwater"];
    assert(str_views(names@) =~= seq!["underwater"@]);
    if contains_str(names.as_slice(), name) {
        let keys: Vec<&'static str> = vec!["depth", "depth-amount"];
        assert(str_views(keys@) =~= seq!["depth"@, "depth-amount"@]);
        return Some(keys);
    }
    let names: Vec<&str> = vec!["crystal"];
    assert(str_views(names@) =~= seq!["crystal"@]);
    if contains_str(names.as_slice(), name) {
        let keys: Vec<&'static str> = vec!["brightness", "decay"];
        assert(str_views(keys@) =~= seq!["brightness"@, "decay"@]);
        return Some(keys);
    }
    let names: Vec<&str> = vec!["dc-remove", "dc-block"];
    assert(str_views(names@) =~= seq!["dc-remove"@, "dc-block"@]);
    if contains_str(names.as_slice(), name) {
        let keys: Vec<&'static str> = Vec::new();
        assert(str_views(keys@) =~= Seq::<Seq<char>>::empty());
        return Some(keys);
    }
    let names: Vec<&str> = vec!["pitch-shift"];
    assert(str_views(names@) =~= seq!["pitch-shift"@]);
    if contains_str(names.as_slice(), name) {
        let keys: Vec<&'static str> = vec!["semitones", "mix"];
        assert(str_views(keys@) =~= seq!["semitones"@, "mix"@]);
        return Some(keys);
    }
    let names: Vec<&str> = vec!["harmonizer"];
    assert(str_views(names@) =~= seq!["harmonizer"@]);
    if contains_str(names.as_slice(), name) {
        let keys: Vec<&'static str> = vec!["interval", "mix"];
        assert(str_views(keys@) =~= seq!["interval"@, "mix"@]);
        return Some(keys);
    }
    let names: Vec<&str> = vec!["octaver"];
    assert(str_views(names@) =~= seq!["octaver"@]);
    if contains_str(names.as_slice(), name) {
        let keys: Vec<&'static str> = vec!["octave-up", "octave-down"];
        assert(str_views(keys@) =~= seq!["octave-up"@, "octave-down"@]);
        return Some(keys);
    }
    let names: Vec<&str> = vec!["shimmer"];
    assert(str_views(names@) =~= seq!["shimmer"@]);
    if contains_str(names.as_slice(), name) {
        let keys: Vec<&'static str> = vec!["shift-semitones", "feedback", "mix"];
        assert(str_views(keys@) =~= seq!["shift-semitones"@, "feedback"@, "mix"@]);
        return Some(keys);
    }
    let names: Vec<&str> = vec!["stutter", "granular-stutter"];
    assert(str_views(names@) =~= seq!["stutter"@, "granular-stutter"@]);
    if contains_str(names.as_slice(), name) {
        let keys: Vec<&'static str> = vec!["grain-size-ms", "grain-ms", "repeats", "mix"];
        assert(str_views(keys@) =~= seq!["grain-size-ms"@, "grain-ms"@, "repeats"@, "mix"@]);
        return Some(keys);
    }
    let names: Vec<&str> = vec!["glitch"];
    assert(str_views(names@) =~= seq!["glitch"@]);
    if contains_str(names.as_slice(), name) {
        let keys: Vec<&'static str> = vec!["density", "slice-ms"];
        assert(str_views(keys@) =~= seq!["density"@, "slice-ms"@]);
        return Some(keys);
    }
    let names: Vec<&str> = vec!["fade"];
    assert(str_views(names@) =~= seq!["fade"@]);
    if contains_str(names.as_slice(), name) {
        let keys: Vec<&'static str> = vec!["fade-in-ms", "fade-out-ms", "duration"];
        assert(str_views(keys@) =~= seq!["fade-in-ms"@, "fade-out-ms"@, "duration"@]);
        return Some(keys);
    }
    let names: Vec<&str> = vec!["adsr", "asdr"];
    assert(str_views(names@) =~= seq!["adsr"@, "asdr"@]);
    if contains_str(names.as_slice(), name) {
        let keys: Vec<&'static str> = vec!["attack", "a", "decay", "d", "sustain", "s", "release", "r", "duration"];
        assert(str_views(keys@) =~= seq!["attack"@, "a"@, "decay"@, "d"@, "sustain"@, "s"@, "release"@, "r"@, "duration"@]);
        return Some(keys);
    }
    let names: Vec<&str> = vec!["doppler"];
    assert(str_views(names@) =~= seq!["doppler"@]);
    if contains_str(names.as_slice(), name) {
        let keys: Vec<&'static str> = vec!["speed", "depth"];
        assert(str_views(keys@) =~= seq!["speed"@, "depth"@]);
        return Some(keys);
    }
    let names: Vec<&str> = vec!["maximizer"];
    assert(str_views(names@) =~= seq!["maximizer"@]);
    if contains_str(names.as_slice(), name) {
        let keys: Vec<&'static str> = vec!["ceiling", "warmth", "release-ms"];
        assert(str_views(keys@) =~= seq!["ceiling"@, "warmth"@, "release-ms"@]);
        return Some(keys);
    }
    let names: Vec<&str> = vec!["multiband-comp"];
    assert(str_views(names@) =~= seq!["multiband-comp"@]);
    if contains_str(names.as_slice(), name) {
        let keys: Vec<&'static str> = vec!["low-thresh", "mid-thresh", "high-thresh", "crossover-low", "crossover-high"];
        assert(str_views(keys@) =~= seq!["low-thresh"@, "mid-thresh"@, "high-thresh"@, "crossover-low"@, "crossover-high"@]);
        return Some(keys);
    }
    let names: Vec<&str> = vec!["harmonic-enhance"];
    assert(str_views(names@) =~= seq!["harmonic-enhance"@]);
    if contains_str(names.as_slice(), name) {
        let keys: Vec<&'static str> = vec!["low-harmonics", "high-harmonics", "air"];
        assert(str_views(keys@) =~= seq!["low-harmonics"@, "high-harmonics"@, "air"@]);
        return Some(keys);
    }
    let names: Vec<&str> = vec!["body"];
    assert(str_views(names@) =~= seq!["body"@]);
    if contains_str(names.as_slice(), name) {
        let keys: Vec<&'static str> = vec!["size", "tone", "mix"];
        assert(str_views(keys@) =~= seq!["size"@, "tone"@, "mix"@]);
        return Some(keys);
    }
    let names: Vec<&str> = vec!["warmth"];
    assert(str_views(names@) =~= seq!["warmth"@]);
    if contains_str(names.as_slice(), name) {
        let keys: Vec<&'static str> = vec!["amount"];
        assert(str_views(keys@) =~= seq!["amount"@]);
        return Some(keys);
    }
    let names: Vec<&str> = vec!["spatial"];
    assert(str_views(names@) =~= seq!["spatial"@]);
    if contains_str(names.as_slice(), name) {
        let keys: Vec<&'static str> = vec!["room-size", "position", "height"];
        assert(str_views(keys@) =~= seq!["room-size"@, "position"@, "height"@]);
        return Some(keys);
    }
    let names: Vec<&str> = vec!["parallel-comp", "parallel-compressor", "ny-comp"];
    assert(str_views(names@) =~= seq!["parallel-comp"@, "parallel-compressor"@, "ny-comp"@]);
    if contains_str(names.as_slice(), name) {
        let keys: Vec<&'static str> = vec!["threshold", "ratio", "mix"];
        assert(str_views(keys@) =~= seq!["threshold"@, "ratio"@, "mix"@]);
        return Some(keys);
    }
    let names: Vec<&str> = vec!["tremolo"];
    assert(str_views(names@) =~= seq!["tremolo"@]);
    if contains_str(names.as_slice(), name) {
        let keys: Vec<&'static str> = vec!["rate", "depth"];
        assert(str_views(keys@) =~= seq!["rate"@, "depth"@]);
        return Some(keys);
    }
    let names: Vec<&str> = vec!["chorus"];
    assert(str_views(names@) =~= seq!["chorus"@]);
    if contains_str(names.as_slice(), name) {
        let keys: Vec<&'static str> = vec!["rate", "depth", "voices", "mix"];
        assert(str_views(keys@) =~= seq!["rate"@, "depth"@, "voices"@, "mix"@]);
        return Some(keys);
    }
    let names: Vec<&str> = vec!["dimension"];
    assert(str_views(names@) =~= seq!["dimension"@]);
    if contains_str(names.as_slice(), name) {
        let keys: Vec<&'static str> = vec!["mode"];
        assert(str_views(keys@) =~= seq!["mode"@]);
        return Some(keys);
    }
    let names: Vec<&str> = vec!["ensemble"];
    assert(str_views(names@) =~= seq!["ensemble"@]);
    if contains_str(names.as_slice(), name) {
        let keys: Vec<&'static str> = vec!["voices", "depth", "rate"];
        assert(str_views(keys@) =~= seq!["voices"@, "depth"@, "rate"@]);
        return Some(keys);
    }
    let names: Vec<&str> = vec!["ce1-chorus", "ce-1"];
    assert(str_views(names@) =~= seq!["ce1-chorus"@, "ce-1"@]);
    if contains_str(names.as_slice(), name) {
        let keys: Vec<&'static str> = vec!["rate", "intensity"];
        assert(str_views(keys@) =~= seq!["rate"@, "intensity"@]);
        return Some(keys);
    }
    let names: Vec<&str> = vec!["re301-chorus", "re-301-chorus"];
    assert(str_views(names@) =~= seq!["re301-chorus"@, "re-301-chorus"@]);
    if contains_str(names.as_slice(), name) {
        let keys: Vec<&'static str> = vec!["rate", "depth", "tone"];
        assert(str_views(keys@) =~= seq!["rate"@, "depth"@, "tone"@]);
        return Some(keys);
    }
    let names: Vec<&str> = vec!["dimension-d"];
    assert(str_views(names@) =~= seq!["dimension-d"@]);
    if contains_str(names.as_slice(), name) {
        let keys: Vec<&'static str> = vec!["mode"];
        assert(str_views(keys@) =~= seq!["mode"@]);
        return Some(keys);
    }
    let names: Vec<&str> = vec!["h3000"];
    assert(str_views(names@) =~= seq!["h3000"@]);
    if contains_str(names.as_slice(), name) {
        let keys: Vec<&'static str> = vec!["detune-cents", "delay-ms", "feedback", "mix"];
        assert(str_views(keys@) =~= seq!["detune-cents"@, "delay-ms"@, "feedback"@, "mix"@]);
        return Some(keys);
    }
    let names: Vec<&str> = vec!["flanger"];
    assert(str_views(names@) =~= seq!["flanger"@]);
    if contains_str(names.as_slice(), name) {
        let keys: Vec<&'static str> = vec!["rate", "depth", "feedback", "mix"];
        assert(str_views(keys@) =~= seq!["rate"@, "depth"@, "feedback"@, "mix"@]);
        return Some(keys);
    }
    let names: Vec<&str> = vec!["phaser"];
    assert(str_views(names@) =~= seq!["phaser"@]);
    if contains_str(names.as_slice(), name) {
        let keys: Vec<&'static str> = vec!["rate", "depth", "stages", "mix"];
        assert(str_views(keys@) =~= seq!["rate"@, "depth"@, "stages"@, "mix"@]);
        return Some(keys);
    }
    let names: Vec<&str> = vec!["small-stone"];
    assert(str_views(names@) =~= seq!["small-stone"@]);
    if contains_str(names.as_slice(), name) {
        let keys: Vec<&'static str> = vec!["rate", "depth", "feedback", "color"];
        assert(str_views(keys@) =~= seq!["rate"@, "depth"@, "feedback"@, "color"@]);
        return Some(keys);
    }
    let names: Vec<&str> = vec!["vibrato"];
    assert(str_views(names@) =~= seq!["vibrato"@]);
    if contains_str(names.as_slice(), name) {
        let keys: Vec<&'static str> = vec!["rate", "depth"];
        assert(str_views(keys@) =~= seq!["rate"@, "depth"@]);
        return Some(keys);
    }
    let names: Vec<&str> = vec!["ring-mod", "ringmod"];
    assert(str_views(names@) =~= seq!["ring-mod"@, "ringmod"@]);
    if contains_str(names.as_slice(), name) {
        let keys: Vec<&'static str> = vec!["freq", "mix"];
        assert(str_views(keys@) =~= seq!["freq"@, "mix"@]);
        return Some(keys);
    }
    let names: Vec<&str> = vec!["arp-ring-mod"];
    assert(str_views(names@) =~= seq!["arp-ring-mod"@]);
    if contains_str(names.as_slice(), name) {
        let keys: Vec<&'static str> = vec!["freq", "depth", "mix", "diode-curve"];
        assert(str_views(keys@) =~= seq!["freq"@, "depth"@, "mix"@, "diode-curve"@]);
        return Some(keys);
    }
    let names: Vec<&str> = vec!["compressor"];
    assert(str_views(names@) =~= seq!["compressor"@]);
    if contains_str(names.as_slice(), name) {
        let keys: Vec<&'static str> = vec!["threshold", "ratio", "attack", "release", "makeup", "makeup-gain"];
        assert(str_views(keys@) =~= seq!["threshold"@, "ratio"@, "attack"@, "release"@, "makeup"@, "makeup-gain"@]);
        return Some(keys);
    }
    let names: Vec<&str> = vec!["fairchild"];
    assert(str_views(names@) =~= seq!["fairchild"@]);
    if contains_str(names.as_slice(), name) {
        let keys: Vec<&'static str> = vec!["input-gain", "threshold", "time-constant", "mix"];
        assert(str_views(keys@) =~= seq!["input-gain"@, "threshold"@, "time-constant"@, "mix"@]);
        return Some(keys);
    }
    let names: Vec<&str> = vec!["ssl-comp"];
    assert(str_views(names@) =~= seq!["ssl-comp"@]);
    if contains_str(names.as_slice(), name) {
        let keys: Vec<&'static str> = vec!["threshold", "ratio", "attack-ms", "release-ms", "makeup-db"];
        assert(str_views(keys@) =~= seq!["threshold"@, "ratio"@, "attack-ms"@, "release-ms"@, "makeup-db"@]);
        return Some(keys);
    }
    let names: Vec<&str> = vec!["dbx160"];
    assert(str_views(names@) =~= seq!["dbx160"@]);
    if contains_str(names.as_slice(), name) {
        let keys: Vec<&'static str> = vec!["threshold", "ratio"];
        assert(str_views(keys@) =~= seq!["threshold"@, "ratio"@]);
        return Some(keys);
    }
    let names: Vec<&str> = vec!["la2a"];
    assert(str_views(names@) =~= seq!["la2a"@]);
    if contains_str(names.as_slice(), name) {
        let keys: Vec<&'static str> = vec!["peak-reduction", "mode"];
        assert(str_views(keys@) =~= seq!["peak-reduction"@, "mode"@]);
        return Some(keys);
    }
    let names: Vec<&str> = vec!["1176", "urei-1176"];
    assert(str_views(names@) =~= seq!["1176"@, "urei-1176"@]);
    if contains_str(names.as_slice(), name) {
        let keys: Vec<&'static str> = vec!["input-gain", "ratio", "attack", "release"];
        assert(str_views(keys@) =~= seq!["input-gain"@, "ratio"@, "attack"@, "release"@]);
        return Some(keys);
    }
    let names: Vec<&str> = vec!["limiter"];
    assert(str_views(names@) =~= seq!["limiter"@]);
    if contains_str(names.as_slice(), name) {
        let keys: Vec<&'static str> = vec!["ceiling", "release"];
        assert(str_views(keys@) =~= seq!["ceiling"@, "release"@]);
        return Some(keys);
    }
    let names: Vec<&str> = vec!["gate"];
    assert(str_views(names@) =~= seq!["gate"@]);
    if contains_str(names.as_slice(), name) {
        let keys: Vec<&'static str> = vec!["threshold", "attack", "release"];
        assert(str_views(keys@) =~= seq!["threshold"@, "attack"@, "release"@]);
        return Some(keys);
    }
    let names: Vec<&str> = vec!["transient", "transient-shaper"];
    assert(str_views(names@) =~= seq!["transient"@, "transient-shaper"@]);
    if contains_str(names.as_slice(), name) {
        let keys: Vec<&'static str> = vec!["attack-gain", "sustain-gain", "sensitivity"];
        assert(str_views(keys@) =~= seq!["attack-gain"@, "sustain-gain"@, "sensitivity"@]);
        return Some(keys);
    }
    let names: Vec<&str> = vec!["reverb"];
    assert(str_views(names@) =~= seq!["reverb"@]);
    if contains_str(names.as_slice(), name) {
        let keys: Vec<&'static str> = vec!["decay", "mix"];
        assert(str_views(keys@) =~= seq!["decay"@, "mix"@]);
        return Some(keys);
    }
    let names: Vec<&str> = vec!["spring-reverb"];
    assert(str_views(names@) =~= seq!["spring-reverb"@]);
    if contains_str(names.as_slice(), name) {
        let keys: Vec<&'static str> = vec!["decay", "tone", "mix", "drip"];
        assert(str_views(keys@) =~= seq!["decay"@, "tone"@, "mix"@, "drip"@]);
        return Some(keys);
    }
    let names: Vec<&str> = vec!["emt-plate"];
    assert(str_views(names@) =~= seq!["emt-plate"@]);
    if contains_str(names.as_slice(), name) {
        let keys: Vec<&'static str> = vec!["decay", "damping", "mix", "pre-delay-ms"];
        assert(str_views(keys@) =~= seq!["decay"@, "damping"@, "mix"@, "pre-delay-ms"@]);
        return Some(keys);
    }
    let names: Vec<&str> = vec!["lexicon-224"];
    assert(str_views(names@) =~= seq!["lexicon-224"@]);
    if contains_str(names.as_slice(), name) {
        let keys: Vec<&'static str> = vec!["size", "decay", "damping", "pre-delay-ms", "mix"];
        assert(str_views(keys@) =~= seq!["size"@, "decay"@, "damping"@, "pre-delay-ms"@, "mix"@]);
        return Some(keys);
    }
    let names: Vec<&str> = vec!["ams-reverb"];
    assert(str_views(names@) =~= seq!["ams-reverb"@]);
    if contains_str(names.as_slice(), name) {
        let keys: Vec<&'static str> = vec!["decay", "damping", "program", "mix"];
        assert(str_views(keys@) =~= seq!["decay"@, "damping"@, "program"@, "mix"@]);
        return Some(keys);
    }
    let names: Vec<&str> = vec!["tube", "tube-saturation"];
    assert(str_views(names@) =~= seq!["tube"@, "tube-saturation"@]);
    if contains_str(names.as_slice(), name) {
        let keys: Vec<&'static str> = vec!["drive", "gain", "asymmetry"];
        assert(str_views(keys@) =~= seq!["drive"@, "gain"@, "asymmetry"@]);
        return Some(keys);
    }
    let names: Vec<&str> = vec!["neve-preamp"];
    assert(str_views(names@) =~= seq!["neve-preamp"@]);
    if contains_str(names.as_slice(), name) {
        let keys: Vec<&'static str> = vec!["gain", "warmth"];
        assert(str_views(keys@) =~= seq!["gain"@, "warmth"@]);
        return Some(keys);
    }
    let names: Vec<&str> = vec!["marshall-amp"];
    assert(str_views(names@) =~= seq!["marshall-amp"@]);
    if contains_str(names.as_slice(), name) {
        let keys: Vec<&'static str> = vec!["gain", "tone", "presence"];
        assert(str_views(keys@) =~= seq!["gain"@, "tone"@, "presence"@]);
        return Some(keys);
    }
    let names: Vec<&str> = vec!["vox-ac30"];
    assert(str_views(names@) =~= seq!["vox-ac30"@]);
    if contains_str(names.as_slice(), name) {
        let keys: Vec<&'static str> = vec!["gain", "treble", "cut"];
        assert(str_views(keys@) =~= seq!["gain"@, "treble"@, "cut"@]);
        return Some(keys);
    }
    let names: Vec<&str> = vec!["fender-twin"];
    assert(str_views(names@) =~= seq!["fender-twin"@]);
    if contains_str(names.as_slice(), name) {
        let keys: Vec<&'static str> = vec!["volume", "gain", "treble", "bass", "reverb-mix"];
        assert(str_views(keys@) =~= seq!["volume"@, "gain"@, "treble"@, "bass"@, "reverb-mix"@]);
        return Some(keys);
    }
    let names: Vec<&str> = vec!["pultec-eq", "pultec"];
    assert(str_views(names@) =~= seq!["pultec-eq"@, "pultec"@]);
    if contains_str(names.as_slice(), name) {
        let keys: Vec<&'static str> = vec!["low-boost", "low-atten", "low-freq", "high-boost", "high-atten", "high-freq"];
        assert(str_views(keys@) =~= seq!["low-boost"@, "low-atten"@, "low-freq"@, "high-boost"@, "high-atten"@, "high-freq"@]);
        return Some(keys);
    }
    let names: Vec<&str> = vec!["tape"];
    assert(str_views(names@) =~= seq!["tape"@]);
    if contains_str(names.as_slice(), name) {
        let keys: Vec<&'static str> = vec!["saturation", "input-level", "wow", "flutter"];
        assert(str_views(keys@) =~= seq!["saturation"@, "input-level"@, "wow"@, "flutter"@]);
        return Some(keys);
    }
    let names: Vec<&str> = vec!["studer-tape"];
    assert(str_views(names@) =~= seq!["studer-tape"@]);
    if contains_str(names.as_slice(), name) {
        let keys: Vec<&'static str> = vec!["input-level", "speed", "bias"];
        assert(str_views(keys@) =~= seq!["input-level"@, "speed"@, "bias"@]);
        return Some(keys);
    }
    let names: Vec<&str> = vec!["exciter"];
    assert(str_views(names@) =~= seq!["exciter"@]);
    if contains_str(names.as_slice(), name) {
        let keys: Vec<&'static str> = vec!["amount", "cutoff"];
        assert(str_views(keys@) =~= seq!["amount"@, "cutoff"@]);
        return Some(keys);
    }
    let names: Vec<&str> = vec!["moog", "moog-ladder"];
    assert(str_views(names@) =~= seq!["moog"@, "moog-ladder"@]);
    if contains_str(names.as_slice(), name) {
        let keys: Vec<&'static str> = vec!["cutoff", "res", "resonance", "drive"];
        assert(str_views(keys@) =~= seq!["cutoff"@, "res"@, "resonance"@, "drive"@]);
        return Some(keys);
    }
    let names: Vec<&str> = vec!["prophet-filter"];
    assert(str_views(names@) =~= seq!["prophet-filter"@]);
    if contains_str(names.as_slice(), name) {
        let keys: Vec<&'static str> = vec!["cutoff", "res", "resonance"];
        assert(str_views(keys@) =~= seq!["cutoff"@, "res"@, "resonance"@]);
        return Some(keys);
    }
    let names: Vec<&str> = vec!["obxa-filter"];
    assert(str_views(names@) =~= seq!["obxa-filter"@]);
    if contains_str(names.as_slice(), name) {
        let keys: Vec<&'static str> = vec!["cutoff", "res", "resonance", "type"];
        assert(str_views(keys@) =~= seq!["cutoff"@, "res"@, "resonance"@, "type"@]);
        return Some(keys);
    }
    let names: Vec<&str> = vec!["303", "303-filter", "tb303", "tb-303"];
    assert(str_views(names@) =~= seq!["303"@, "303-filter"@, "tb303"@, "tb-303"@]);
    if contains_str(names.as_slice(), name) {
        let keys: Vec<&'static str> = vec!["cutoff", "res", "resonance", "env-mod", "accent", "decay"];
        assert(str_views(keys@) =~= seq!["cutoff"@, "res"@, "resonance"@, "env-mod"@, "accent"@, "decay"@]);
        return Some(keys);
    }
    let names: Vec<&str> = vec!["space-echo", "re201", "re-201"];
    assert(str_views(names@) =~= seq!["space-echo"@, "re201"@, "re-201"@]);
    if contains_str(names.as_slice(), name) {
        let keys: Vec<&'static str> = vec!["time", "feedback", "wow", "flutter", "tone", "spring-mix", "mix"];
        assert(str_views(keys@) =~= seq!["time"@, "feedback"@, "wow"@, "flutter"@, "tone"@, "spring-mix"@, "mix"@]);
        return Some(keys);
    }
    let names: Vec<&str> = vec!["tc2290", "tc-2290"];
    assert(str_views(names@) =~= seq!["tc2290"@, "tc-2290"@]);
    if contains_str(names.as_slice(), name) {
        let keys: Vec<&'static str> = vec!["time-ms", "feedback", "mod-rate", "mod-depth", "mix"];
        assert(str_views(keys@) =~= seq!["time-ms"@, "feedback"@, "mod-rate"@, "mod-depth"@, "mix"@]);
        return Some(keys);
    }
    let names: Vec<&str> = vec!["sem-filter", "sem"];
    assert(str_views(names@) =~= seq!["sem-filter"@, "sem"@]);
    if contains_str(names.as_slice(), name) {
        let keys: Vec<&'static str> = vec!["cutoff", "res", "resonance", "type"];
        assert(str_views(keys@) =~= seq!["cutoff"@, "res"@, "resonance"@, "type"@]);
        return Some(keys);
    }
    let names: Vec<&str> = vec!["ms20", "ms20-filter"];
    assert(str_views(names@) =~= seq!["ms20"@, "ms20-filter"@]);
    if contains_str(names.as_slice(), name) {
        let keys: Vec<&'static str> = vec!["cutoff", "res", "resonance"];
        assert(str_views(keys@) =~= seq!["cutoff"@, "res"@, "resonance"@]);
        return Some(keys);
    }
    let names: Vec<&str> = vec!["wasp-filter"];
    assert(str_views(names@) =~= seq!["wasp-filter"@]);
    if contains_str(names.as_slice(), name) {
        let keys: Vec<&'static str> = vec!["cutoff", "res", "resonance"];
        assert(str_views(keys@) =~= seq!["cutoff"@, "res"@, "resonance"@]);
        return Some(keys);
    }
    let names: Vec<&str> = vec!["juno-hpf"];
    assert(str_views(names@) =~= seq!["juno-hpf"@]);
    if contains_str(names.as_slice(), name) {
        let keys: Vec<&'static str> = vec!["cutoff", "res", "resonance"];
        assert(str_views(keys@) =~= seq!["cutoff"@, "res"@, "resonance"@]);
        return Some(keys);
    }
    let names: Vec<&str> = vec!["buchla-lpg", "lpg"];
    assert(str_views(names@) =~= seq!["buchla-lpg"@, "lpg"@]);
    if contains_str(names.as_slice(), name) {
        let keys: Vec<&'static str> = vec!["strike", "decay", "res", "resonance"];
        assert(str_views(keys@) =~= seq!["strike"@, "decay"@, "res"@, "resonance"@]);
        return Some(keys);
    }
    None
}

/// The canonical name of parameter `key` of effect form `form_name`.
pub open spec fn spec_effect_param_canonical_key(form_name: Seq<char>, key: Seq<char>) -> Seq<char> {
    if seq!["filter"@].contains(form_name) {
        if seq!["res"@, "resonance"@].contains(key) {
            "resonance"@
        } else if seq!["gain-db"@, "gain_db"@].contains(key) {
            "gain-db"@
        } else {
            key
        }
    } else if seq!["comb"@].contains(form_name) {
        if seq!["delay-ms"@, "delay"@].contains(key) {
            "delay-ms"@
        } else {
            key
        }
    } else if seq!["bitcrush"@].contains(form_name) {
        if seq!["bits"@, "bit-depth"@].contains(key) {
            "bits"@
        } else if seq!["rate"@, "sample-rate-reduction"@].contains(key) {
            "rate"@
        } else {
            key
        }
    } else if seq!["lofi"@, "lo-fi"@].contains(form_name) {
        if seq!["amount"@, "intensity"@].contains(key) {
            "amount"@
        } else {
            key
        }
    } else if seq!["underwater"@].contains(form_name) {
        if seq!["depth"@, "depth-amount"@].contains(key) {
            "depth"@
        } else {
            key
        }
    } else if seq!["stutter"@, "granular-stutter"@].contains(form_name) {
        if seq!["grain-size-ms"@, "grain-ms"@].contains(key) {
            "grain-size-ms"@
        } else {
            key
        }
    } else if seq!["adsr"@, "asdr"@].contains(form_name) {
        if seq!["attack"@, "a"@].contains(key) {
            "attack"@
        } else if seq!["decay"@, "d"@].contains(key) {
            "decay"@
        } else if seq!["sustain"@, "s"@].contains(key) {
            "sustain"@
        } else if seq!["release"@, "r"@].contains(key) {
            "release"@
        } else {
            key
        }
    } else if seq!["arp-ring-mod"@].contains(form_name) {
        if seq!["depth"@, "mix"@].contains(key) {
            "depth"@
        } else {
            key
        }
    } else if seq!["compressor"@].contains(form_name) {
        if seq!["makeup"@, "makeup-gain"@].contains(key) {
            "makeup"@
        } else {
            key
        }
    } else if seq!["tube"@, "tube-saturation"@].contains(form_name) {
        if seq!["drive"@, "gain"@].contains(key) {
            "drive"@
        } else {
            key
        }
    } else if seq!["fender-twin"@].contains(form_name) {
        if seq!["volume"@, "gain"@].contains(key) {
            "volume"@
        } else {
            key
        }
    } else if seq!["tape"@].contains(form_name) {
        if seq!["saturation"@, "input-level"@].contains(key) {
            "saturation"@
        } else {
            key
        }
    } else if seq!["moog"@, "moog-ladder"@, "prophet-filter"@, "obxa-filter"@, "303"@, "303-filter"@, "tb303"@, "tb-303"@, "sem-filter"@, "sem"@, "ms20"@, "ms20-filter"@, "wasp-filter"@, "juno-hpf"@, "buchla-lpg"@, "lpg"@].contains(form_name) {
        if seq!["res"@, "resonance"@].contains(key) {
            "resonance"@
        } else {
            key
        }
    } else if seq!["tape-stop"@].contains(form_name) {
        if seq!["duration-pct"@, "duration"@].contains(key) {
            "duration-pct"@
        } else {
            key
        }
    } else {
        key
    }
}

/// The canonical name of parameter `key` of effect form `form_name`.
#[verifier::rlimit(40)]
pub fn effect_param_canonical_key<'a>(form_name: &str, key: &'a str) -> (r: &'a str)
    ensures
        r@ == spec_effect_param_canonical_key(form_name@, key@),
{
    let names: Vec<&str> = vec!["filter"];
    assert(str_views(names@) =~= seq!["filter"@]);
    if contains_str(names.as_slice(), form_name) {
        let names: Vec<&str> = vec!["res", "resonance"];
        assert(str_views(names@) =~= seq!["res"@, "resonance"@]);
        if contains_str(names.as_slice(), key) {
            return "resonance";
        }
        let names: Vec<&str> = vec!["gain-db", "gain_db"];
        assert(str_views(names@) =~= seq!["gain-db"@, "gain_db"@]);
        if contains_str(names.as_slice(), key) {
            return "gain-db";
        }
        return key;
    }
    let names: Vec<&str> = vec!["comb"];
    assert(str_views(names@) =~= seq!["comb"@]);
    if contains_str(names.as_slice(), form_name) {
        let names: Vec<&str> = vec!["delay-ms", "delay"];
        assert(str_views(names@) =~= seq!["delay-ms"@, "delay"@]);
        if contains_str(names.as_slice(), key) {
            return "delay-ms";
        }
        return key;
    }
    let names: Vec<&str> = vec!["bitcrush"];
    assert(str_views(names@) =~= seq!["bitcrush"@]);
    if contains_str(names.as_slice(), form_name) {
        let names: Vec<&str> = vec!["bits", "bit-depth"];
        assert(str_views(names@) =~= seq!["bits"@, "bit-depth"@]);
        if contains_str(names.as_slice(), key) {
            return "bits";
        }
        let names: Vec<&str> = vec!["rate", "sample-rate-reduction"];
        assert(str_views(names@) =~= seq!["rate"@, "sample-rate-reduction"@]);
        if contains_str(names.as_slice(), key) {
            return "rate";
        }
        return key;
    }
    let names: Vec<&str> = vec!["lofi", "lo-fi"];
    assert(str_views(names@) =~= seq!["lofi"@, "lo-fi"@]);
    if contains_str(names.as_slice(), form_name) {
        let names: Vec<&str> = vec!["amount", "intensity"];
        assert(str_views(names@) =~= seq!["amount"@, "intensity"@]);
        if contains_str(names.as_slice(), key) {
            return "amount";
        }
        return key;
    }
    let names: Vec<&str> = vec!["underwater"];
    assert(str_views(names@) =~= seq!["underwater"@]);
    if contains_str(names.as_slice(), form_name) {
        let names: Vec<&str> = vec!["depth", "depth-amount"];
        assert(str_views(names@) =~= seq!["depth"@, "depth-amount"@]);
        if contains_str(names.as_slice(), key) {
            return "depth";
        }
        return key;
    }
    let names: Vec<&str> = vec!["stutter", "granular-stutter"];
    assert(str_views(names@) =~= seq!["stutter"@, "granular-stutter"@]);
    if contains_str(names.as_slice(), form_name) {
        let names: Vec<&str> = vec!["grain-size-ms", "grain-ms"];
        assert(str_views(names@) =~= seq!["grain-size-ms"@, "grain-ms"@]);
        if contains_str(names.as_slice(), key) {
            return "grain-size-ms";
        }
        return key;
    }
    let names: Vec<&str> = vec!["adsr", "asdr"];
    assert(str_views(names@) =~= seq!["adsr"@, "asdr"@]);
    if contains_str(names.as_slice(), form_name) {
        let names: Vec<&str> = vec!["attack", "a"];
        assert(str_views(names@) =~= seq!["attack"@, "a"@]);
        if contains_str(names.as_slice(), key) {
            return "attack";
        }
        let names: Vec<&str> = vec!["decay", "d"];
        assert(str_views(names@) =~= seq!["decay"@, "d"@]);
        if contains_str(names.as_slice(), key) {
            return "decay";
        }
        let names: Vec<&str> = vec!["sustain", "s"];
        assert(str_views(names@) =~= seq!["sustain"@, "s"@]);
        if contains_str(names.as_slice(), key) {
            return "sustain";
        }
        let names: Vec<&str> = vec!["release", "r"];
        assert(str_views(names@) =~= seq!["release"@, "r"@]);
        if contains_str(names.as_slice(), key) {
            return "release";
        }
        return key;
    }
    let names: Vec<&str> = vec!["arp-ring-mod"];
    assert(str_views(names@) =~= seq!["arp-ring-mod"@]);
    if contains_str(names.as_slice(), form_name) {
        let names: Vec<&str> = vec!["depth", "mix"];
        assert(str_views(names@) =~= seq!["depth"@, "mix"@]);
        if contains_str(names.as_slice(), key) {
            return "depth";
        }
        return key;
    }
    let names: Vec<&str> = vec!["compressor"];
    assert(str_views(names@) =~= seq!["compressor"@]);
    if contains_str(names.as_slice(), form_name) {
        let names: Vec<&str> = vec!["makeup", "makeup-gain"];
        assert(str_views(names@) =~= seq!["makeup"@, "makeup-gain"@]);
        if contains_str(names.as_slice(), key) {
            return "makeup";
        }
        return key;
    }
    let names: Vec<&str> = vec!["tube", "tube-saturation"];
    assert(str_views(names@) =~= seq!["tube"@, "tube-saturation"@]);
    if contains_str(names.as_slice(), form_name) {
        let names: Vec<&str> = vec!["drive", "gain"];
        assert(str_views(names@) =~= seq!["drive"@, "gain"@]);
        if contains_str(names.as_slice(), key) {
            return "drive";
        }
        return key;
    }
    let names: Vec<&str> = vec!["fender-twin"];
    assert(str_views(names@) =~= seq!["fender-twin"@]);
    if contains_str(names.as_slice(), form_name) {
        let names: Vec<&str> = vec!["volume", "gain"];
        assert(str_views(names@) =~= seq!["volume"@, "gain"@]);
        if contains_str(names.as_slice(), key) {
            return "volume";
        }
        return key;
    }
    let names: Vec<&str> = vec!["tape"];
    assert(str_views(names@) =~= seq!["tape"@]);
    if contains_str(names.as_slice(), form_name) {
        let names: Vec<&str> = vec!["saturation", "input-level"];
        assert(str_views(names@) =~= seq!["saturation"@, "input-level"@]);
        if contains_str(names.as_slice(), key) {
            return "saturation";
        }
        return key;
    }
    let names: Vec<&str> = vec!["moog", "moog-ladder", "prophet-filter", "obxa-filter", "303", "303-filter", "tb303", "tb-303", "sem-filter", "sem", "ms20", "ms20-filter", "wasp-filter", "juno-hpf", "buchla-lpg", "lpg"];
    assert(str_views(names@) =~= seq!["moog"@, "moog-ladder"@, "prophet-filter"@, "obxa-filter"@, "303"@, "303-filter"@, "tb303"@, "tb-303"@, "sem-filter"@, "sem"@, "ms20"@, "ms20-filter"@, "wasp-filter"@, "juno-hpf"@, "buchla-lpg"@, "lpg"@]);
    if contains_str(names.as_slice(), form_name) {
        let names: Vec<&str> = vec!["res", "resonance"];
        assert(str_views(names@) =~= seq!["res"@, "resonance"@]);
        if contains_str(names.as_slice(), key) {
            return "resonance";
        }
        return key;
    }
    let names: Vec<&str> = vec!["tape-stop"];
    assert(str_views(names@) =~= seq!["tape-stop"@]);
    if contains_str(names.as_slice(), form_name) {
        let names: Vec<&str> = vec!["duration-pct", "duration"];
        assert(str_views(names@) =~= seq!["duration-pct"@, "duration"@]);
        if contains_str(names.as_slice(), key) {
            return "duration-pct";
        }
        return key;
    }
    key
}

/// The stereo side a name selects.
pub open spec fn spec_stereo_side(name: Seq<char>) -> Option<StereoSide> {
    if seq!["left"@].contains(name) {
        Some(StereoSide::Left)
    } else if seq!["right"@].contains(name) {
        Some(StereoSide::Right)
    } else {
        None
    }
}

/// The stereo side a name selects.
pub fn stereo_side(name: &str) -> (r: Result<StereoSide, String>)
    ensures
        match spec_stereo_side(name@) {
            Some(k) => r == Ok::<StereoSide, String>(k),
            None => r matches Err(m) && m@ == "unsupported stereo side '"@ + name@ + "'"@,
        },
{
    let names: Vec<&str> = vec!["left"];
    assert(str_views(names@) =~= seq!["left"@]);
    if contains_str(names.as_slice(), name) {
        return Ok(StereoSide::Left);
    }
    let names: Vec<&str> = vec!["right"];
    assert(str_views(names@) =~= seq!["right"@]);
    if contains_str(names.as_slice(), name) {
        return Ok(StereoSide::Right);
    }
    let mut m = String::from_str("unsupported stereo side '");
    m.append(name);
    m.append("'");
    Err(m)
}

/// The AMS reverb program a name selects.
pub open spec fn spec_ams_program(name: Seq<char>) -> Option<AmsProgram> {
    if seq!["nonlin"@, "non-linear"@, "nonlinear"@].contains(name) {
        Some(AmsProgram::Nonlin)
    } else if seq!["ambience"@, "ambient"@].contains(name) {
        Some(AmsProgram::Ambience)
    } else if seq!["plate"@].contains(name) {
        Some(AmsProgram::Plate)
    } else {
        None
    }
}

/// The AMS reverb program a name selects.
pub fn ams_program(name: &str) -> (r: Result<AmsProgram, String>)
    ensures
        match spec_ams_program(name@) {
            Some(k) => r == Ok::<AmsProgram, String>(k),
            None => r matches Err(m) && m@ == "unsupported AMS reverb program '"@ + name@ + "'"@,
        },
{
    let names: Vec<&str> = vec!["nonlin", "non-linear", "nonlinear"];
    assert(str_views(names@) =~= seq!["nonlin"@, "non-linear"@, "nonlinear"@]);
    if contains_str(names.as_slice(), name) {
        return Ok(AmsProgram::Nonlin);
    }
    let names: Vec<&str> = vec!["ambience", "ambient"];
    assert(str_views(names@) =~= seq!["ambience"@, "ambient"@]);
    if contains_str(names.as_slice(), name) {
        return Ok(AmsProgram::Ambience);
    }
    let names: Vec<&str> = vec!["plate"];
    assert(str_views(names@) =~= seq!["plate"@]);
    if contains_str(names.as_slice(), name) {
        return Ok(AmsProgram::Plate);
    }
    let mut m = String::from_str("unsupported AMS reverb program '");
    m.append(name);
    m.append("'");
    Err(m)
}

/// The filter response a name selects.
pub open spec fn spec_filter_kind(name: Seq<char>) -> Option<FilterKind> {
    if seq!["lowpass"@, "lp"@].contains(name) {
        Some(FilterKind::Lowpass)
    } else if seq!["highpass"@, "hp"@].contains(name) {
        Some(FilterKind::Highpass)
    } else if seq!["bandpass"@, "bp"@].contains(name) {
        Some(FilterKind::Bandpass)
    } else if seq!["notch"@].contains(name) {
        Some(FilterKind::Notch)
    } else if seq!["allpass"@, "ap"@].contains(name) {
        Some(FilterKind::Allpass)
    } else if seq!["peaking"@, "peak"@, "bell"@].contains(name) {
        Some(FilterKind::Peaking)
    } else if seq!["low-shelf"@, "low_shelf"@, "lowshelf"@].contains(name) {
        Some(FilterKind::LowShelf)
    } else if seq!["high-shelf"@, "high_shelf"@, "highshelf"@].contains(name) {
        Some(FilterKind::HighShelf)
    } else {
        None
    }
}

/// The filter response a name selects.
pub fn filter_kind(name: &str) -> (r: Result<FilterKind, String>)
    ensures
        match spec_filter_kind(name@) {
            Some(k) => r == Ok::<FilterKind, String>(k),
            None => r matches Err(m) && m@ == "unsupported filter type ':"@ + name@ + "'"@,
        },
{
    let names: Vec<&str> = vec!["lowpass", "lp"];
    assert(str_views(names@) =~= seq!["lowpass"@, "lp"@]);
    if contains_str(names.as_slice(), name) {
        return Ok(FilterKind::Lowpass);
    }
    let names: Vec<&str> = vec!["highpass", "hp"];
    assert(str_views(names@) =~= seq!["highpass"@, "hp"@]);
    if contains_str(names.as_slice(), name) {
        return Ok(FilterKind::Highpass);
    }
    let names: Vec<&str> = vec!["bandpass", "bp"];
    assert(str_views(names@) =~= seq!["bandpass"@, "bp"@]);
    if contains_str(names.as_slice(), name) {
        return Ok(FilterKind::Bandpass);
    }
    let names: Vec<&str> = vec!["notch"];
    assert(str_views(names@) =~= seq!["notch"@]);
    if contains_str(names.as_slice(), name) {
        return Ok(FilterKind::Notch);
    }
    let names: Vec<&str> = vec!["allpass", "ap"];
    assert(str_views(names@) =~= seq!["allpass"@, "ap"@]);
    if contains_str(names.as_slice(), name) {
        return Ok(FilterKind::Allpass);
    }
    let names: Vec<&str> = vec!["peaking", "peak", "bell"];
    assert(str_views(names@) =~= seq!["peaking"@, "peak"@, "bell"@]);
    if contains_str(names.as_slice(), name) {
        return Ok(FilterKind::Peaking);
    }
    let names: Vec<&str> = vec!["low-shelf", "low_shelf", "lowshelf"];
    assert(str_views(names@) =~= seq!["low-shelf"@, "low_shelf"@, "lowshelf"@]);
    if contains_str(names.as_slice(), name) {
        return Ok(FilterKind::LowShelf);
    }
    let names: Vec<&str> = vec!["high-shelf", "high_shelf", "highshelf"];
    assert(str_views(names@) =~= seq!["high-shelf"@, "high_shelf"@, "highshelf"@]);
    if contains_str(names.as_slice(), name) {
        return Ok(FilterKind::HighShelf);
    }
    let mut m = String::from_str("unsupported filter type ':");
    m.append(name);
    m.append("'");
    Err(m)
}

/// The formant vowel a name selects.
pub open spec fn spec_vowel(name: Seq<char>) -> Option<Vowel> {
    if seq!["a"@].contains(name) {
        Some(Vowel::A)
    } else if seq!["e"@].contains(name) {
        Some(Vowel::E)
    } else if seq!["i"@].contains(name) {
        Some(Vowel::I)
    } else if seq!["o"@].contains(name) {
        Some(Vowel::O)
    } else if seq!["u"@].contains(name) {
        Some(Vowel::U)
    } else {
        None
    }
}

/// The formant vowel a name selects.
pub fn vowel(name: &str) -> (r: Result<Vowel, String>)
    ensures
        match spec_vowel(name@) {
            Some(k) => r == Ok::<Vowel, String>(k),
            None => r matches Err(m) && m@ == "unsupported vowel ':"@ + name@ + "'"@,
        },
{
    let names: Vec<&str> = vec!["a"];
    assert(str_views(names@) =~= seq!["a"@]);
    if contains_str(names.as_slice(), name) {
        return Ok(Vowel::A);
    }
    let names: Vec<&str> = vec!["e"];
    assert(str_views(names@) =~= seq!["e"@]);
    if contains_str(names.as_slice(), name) {
        return Ok(Vowel::E);
    }
    let names: Vec<&str> = vec!["i"];
    assert(str_views(names@) =~= seq!["i"@]);
    if contains_str(names.as_slice(), name) {
        return Ok(Vowel::I);
    }
    let names: Vec<&str> = vec!["o"];
    assert(str_views(names@) =~= seq!["o"@]);
    if contains_str(names.as_slice(), name) {
        return Ok(Vowel::O);
    }
    let names: Vec<&str> = vec!["u"];
    assert(str_views(names@) =~= seq!["u"@]);
    if contains_str(names.as_slice(), name) {
        return Ok(Vowel::U);
    }
    let mut m = String::from_str("unsupported vowel ':");
    m.append(name);
    m.append("'");
    Err(m)
}

/// The distortion curve a name selects.
pub open spec fn spec_distortion_kind(name: Seq<char>) -> Option<DistortionKind> {
    if seq!["tanh"@].contains(name) {
        Some(DistortionKind::Tanh)
    } else if seq!["hard-clip"@, "hard_clip"@].contains(name) {
        Some(DistortionKind::HardClip)
    } else if seq!["soft-clip"@, "soft_clip"@].contains(name) {
        Some(DistortionKind::SoftClip)
    } else if seq!["sine-fold"@, "sine_fold"@].contains(name) {
        Some(DistortionKind::SineFold)
    } else if seq!["rectify"@].contains(name) {
        Some(DistortionKind::Rectify)
    } else if seq!["half-rectify"@, "half_rectify"@].contains(name) {
        Some(DistortionKind::HalfRectify)
    } else if seq!["waveshape"@].contains(name) {
        Some(DistortionKind::Waveshape)
    } else {
        None
    }
}

/// The distortion curve a name selects.
pub fn distortion_kind(name: &str) -> (r: Result<DistortionKind, String>)
    ensures
        match spec_distortion_kind(name@) {
            Some(k) => r == Ok::<DistortionKind, String>(k),
            None => r matches Err(m) && m@ == "unsupported distortion type ':"@ + name@ + "'"@,
        },
{
    let names: Vec<&str> = vec!["tanh"];
    assert(str_views(names@) =~= seq!["tanh"@]);
    if contains_str(names.as_slice(), name) {
        return Ok(DistortionKind::Tanh);
    }
    let names: Vec<&str> = vec!["hard-clip", "hard_clip"];
    assert(str_views(names@) =~= seq!["hard-clip"@, "hard_clip"@]);
    if contains_str(names.as_slice(), name) {
        return Ok(DistortionKind::HardClip);
    }
    let names: Vec<&str> = vec!["soft-clip", "soft_clip"];
    assert(str_views(names@) =~= seq!["soft-clip"@, "soft_clip"@]);
    if contains_str(names.as_slice(), name) {
        return Ok(DistortionKind::SoftClip);
    }
    let names: Vec<&str> = vec!["sine-fold", "sine_fold"];
    assert(str_views(names@) =~= seq!["sine-fold"@, "sine_fold"@]);
    if contains_str(names.as_slice(), name) {
        return Ok(DistortionKind::SineFold);
    }
    let names: Vec<&str> = vec!["rectify"];
    assert(str_views(names@) =~= seq!["rectify"@]);
    if contains_str(names.as_slice(), name) {
        return Ok(DistortionKind::Rectify);
    }
    let names: Vec<&str> = vec!["half-rectify", "half_rectify"];
    assert(str_views(names@) =~= seq!["half-rectify"@, "half_rectify"@]);
    if contains_str(names.as_slice(), name) {
        return Ok(DistortionKind::HalfRectify);
    }
    let names: Vec<&str> = vec!["waveshape"];
    assert(str_views(names@) =~= seq!["waveshape"@]);
    if contains_str(names.as_slice(), name) {
        return Ok(DistortionKind::Waveshape);
    }
    let mut m = String::from_str("unsupported distortion type ':");
    m.append(name);
    m.append("'");
    Err(m)
}
/// Track options that take no value.
pub open spec fn spec_unary_track_flag(key: Seq<char>) -> bool {
    key == "off"@ || key == "choke"@ || key == "cut"@
}

/// Whether a track option is a flag that takes no value.
pub fn unary_track_flag(key: &str) -> (r: bool)
    ensures
        r == spec_unary_track_flag(key@),
{
    str_eq(key, "off") || str_eq(key, "choke") || str_eq(key, "cut")
}

/// The forms that wrap a numeric or gate pattern.
pub open spec fn spec_numeric_pattern_form(name: Seq<char>) -> bool {
    seq!["p"@, "s"@, "g"@, "gs"@, "gate-seq"@, "gate_seq"@].contains(name)
}

/// Whether `name` is a pattern-wrapping form.
pub fn numeric_pattern_form(name: &str) -> (r: bool)
    ensures
        r == spec_numeric_pattern_form(name@),
{
    let names: Vec<&str> = vec!["p", "s", "g", "gs", "gate-seq", "gate_seq"];
    assert(str_views(names@) =~= seq!["p"@, "s"@, "g"@, "gs"@, "gate-seq"@, "gate_seq"@]);
    contains_str(names.as_slice(), name)
}

/// How a pattern-wrapping form advances an effect parameter.
pub open spec fn spec_numeric_pattern_mode(name: Seq<char>) -> Option<EffectParamPatternMode> {
    if name == "p"@ {
        Some(EffectParamPatternMode::Step)
    } else if name == "s"@ {
        Some(EffectParamPatternMode::Hit)
    } else if seq!["g"@, "gs"@, "gate-seq"@, "gate_seq"@].contains(name) {
        Some(EffectParamPatternMode::Gate)
    } else {
        None
    }
}

/// The advance mode of an effect parameter pattern form.
pub fn numeric_pattern_mode(name: &str) -> (r: Option<EffectParamPatternMode>)
    ensures
        r == spec_numeric_pattern_mode(name@),
{
    if str_eq(name, "p") {
        return Some(EffectParamPatternMode::Step);
    }
    if str_eq(name, "s") {
        return Some(EffectParamPatternMode::Hit);
    }
    let names: Vec<&str> = vec!["g", "gs", "gate-seq", "gate_seq"];
    assert(str_views(names@) =~= seq!["g"@, "gs"@, "gate-seq"@, "gate_seq"@]);
    if contains_str(names.as_slice(), name) {
        return Some(EffectParamPatternMode::Gate);
    }
    None
}

/// `value` when it lies in `min..=max`; otherwise an error naming the bounds.
pub fn bounded_usize_value(value: usize, min: usize, max: usize, name: &str) -> (r: Result<
    usize,
    String,
>)
    ensures
        min <= value <= max ==> r == Ok::<usize, String>(value),
        !(min <= value <= max) ==> (r matches Err(m) && m@ == name@ + " must be between "@
            + decimal(min as nat) + " and "@ + decimal(max as nat) + ", got "@ + decimal(
            value as nat,
        )),
{
    if min <= value && value <= max {
        Ok(value)
    } else {
        let mut m = String::from_str(name);
        m.append(" must be between ");
        push_decimal(&mut m, min);
        m.append(" and ");
        push_decimal(&mut m, max);
        m.append(", got ");
        push_decimal(&mut m, value);
        Err(m)
    }
}

/// The amount of a `~N` gate sustain: a positive whole number.
pub fn gate_sustain_amount(text: &str) -> (r: Result<usize, String>)
    ensures
        !parses_as_usize(text@) ==> (r matches Err(m) && m@
            == "gate sustain must be written like ~12"@),
        parses_as_usize(text@) && digits_value(unsigned_digits(text@)) == 0 ==> (r matches Err(m)
            && m@ == "gate sustain must be greater than zero"@),
        parses_as_usize(text@) && digits_value(unsigned_digits(text@)) > 0 ==> r == Ok::<
            usize,
            String,
        >(digits_value(unsigned_digits(text@)) as usize),
{
    let c = chars_of(text);
    match parse_usize(c.as_slice()) {
        None => Err(String::from_str("gate sustain must be written like ~12")),
        Some(amount) => {
            if amount == 0 {
                Err(String::from_str("gate sustain must be greater than zero"))
            } else {
                Ok(amount)
            }
        },
    }
}

/// The per-slot gates of an effect pattern with `pattern_len` slots in which
/// slot `active_index` plays: that slot gets the first row of the effect's
/// own gates (or one open gate), every other slot one closed gate.
pub fn effect_pattern_slot_gates(
    pattern_len: usize,
    active_index: usize,
    inner: Option<Vec<Vec<bool>>>,
) -> (r: Vec<Vec<bool>>)
    requires
        active_index < pattern_len,
    ensures
        bool_grid(r@) == Seq::new(pattern_len as nat, |i: int| seq![false]).update(
            active_index as int,
            match inner {
                Some(g) => if g@.len() > 0 {
                    g@[0]@
                } else {
                    seq![true]
                },
                None => seq![true],
            },
        ),
{
    let mut gates: Vec<Vec<bool>> = Vec::new();
    let mut i: usize = 0;
    while i < pattern_len
        invariant
            i <= pattern_len,
            bool_grid(gates@) == Seq::new(i as nat, |x: int| seq![false]),
        decreases pattern_len - i,
    {
        let ghost prev = bool_grid(gates@);
        let closed: Vec<bool> = vec![false];
        assert(closed@ =~= seq![false]);
        gates.push(closed);
        assert(bool_grid(gates@) =~= prev.push(seq![false]));
        assert(bool_grid(gates@) =~= Seq::new((i + 1) as nat, |x: int| seq![false]));
        i = i + 1;
    }
    let active: Vec<bool> = match inner {
        Some(g) => {
            if g.len() > 0 {
                let first = &g[0];
                let mut row: Vec<bool> = Vec::new();
                let mut j: usize = 0;
                while j < first.len()
                    invariant
                        j <= first@.len(),
                        row@ == first@.subrange(0, j as int),
                    decreases first@.len() - j,
                {
                    row.push(first[j]);
                    assert(first@.subrange(0, j + 1) =~= first@.subrange(0, j as int).push(
                        first@[j as int],
                    ));
                    j = j + 1;
                }
                assert(first@.subrange(0, first@.len() as int) =~= first@);
                row
            } else {
                let open: Vec<bool> = vec![true];
                assert(open@ =~= seq![true]);
                open
            }
        },
        None => {
            let open: Vec<bool> = vec![true];
            assert(open@ =~= seq![true]);
            open
        },
    };
    let ghost prev = bool_grid(gates@);
    gates.set(active_index, active);
    assert(bool_grid(gates@) =~= prev.update(active_index as int, active@));
    gates
}

/// Index of the first `c` in `s` at or after `from`, or -1.
pub open spec fn next_index_of(s: Seq<char>, c: char, from: int) -> int
    decreases s.len() - from,
{
    if from < 0 || from >= s.len() {
        -1
    } else if s[from] == c {
        from
    } else {
        next_index_of(s, c, from + 1)
    }
}

pub proof fn lemma_next_index_of_range(s: Seq<char>, c: char, from: int)
    requires
        0 <= from,
    ensures
        next_index_of(s, c, from) == -1 || (from <= next_index_of(s, c, from) < s.len() && s[next_index_of(s, c, from)] == c),
        next_index_of(s, c, from) == -1 ==> forall|j: int| from <= j < s.len() ==> s[j] != c,
        forall|j: int| from <= j < s.len() && j < next_index_of(s, c, from) ==> s[j] != c,
    decreases s.len() - from,
{
    if from < s.len() && s[from] != c {
        lemma_next_index_of_range(s, c, from + 1);
    }
}

pub proof fn lemma_token_stop_after(s: Seq<char>, i: int)
    requires
        0 <= i <= s.len(),
    ensures
        i <= token_stop(s, i) <= s.len(),
    decreases s.len() - i,
{
    if i < s.len() && !(is_white_space(s[i]) || is_bracket(s[i])) {
        lemma_token_stop_after(s, i + 1);
    }
}

/// The tokens of `s` from position `i`: comments from `;` to the end of the
/// line are dropped, each bracket is a token, a string runs to the next `"`
/// (or the end) and keeps its quotes, white space separates, and any other
/// run of characters up to white space or a bracket is one token.
pub open spec fn spec_tokens_from(s: Seq<char>, i: int) -> Seq<Seq<char>>
    decreases s.len() - i,
{
    if i < 0 || i >= s.len() {
        Seq::empty()
    } else {
        let c = s[i];
        if c == ';' {
            let j = next_index_of(s, '\n', i + 1);
            if j < 0 {
                Seq::empty()
            } else {
                proof {
                    lemma_next_index_of_range(s, '\n', i + 1);
                }
                spec_tokens_from(s, j + 1)
            }
        } else if is_bracket(c) {
            seq![seq![c]] + spec_tokens_from(s, i + 1)
        } else if c == '"' {
            let j = next_index_of(s, '"', i + 1);
            if j < 0 {
                seq![seq!['"'] + s.subrange(i + 1, s.len() as int) + seq!['"']]
            } else {
                proof {
                    lemma_next_index_of_range(s, '"', i + 1);
                }
                seq![seq!['"'] + s.subrange(i + 1, j) + seq!['"']] + spec_tokens_from(s, j + 1)
            }
        } else if is_white_space(c) {
            spec_tokens_from(s, i + 1)
        } else {
            let e = token_stop(s, i + 1);
            proof {
                lemma_token_stop_after(s, i + 1);
            }
            seq![s.subrange(i, e)] + spec_tokens_from(s, e)
        }
    }
}

fn copy_range(s: &[char], from: usize, to: usize) -> (r: Vec<char>)
    requires
        from <= to <= s@.len(),
    ensures
        r@ == s@.subrange(from as int, to as int),
{
    let mut out: Vec<char> = Vec::new();
    let mut k = from;
    while k < to
        invariant
            from <= k <= to,
            to <= s@.len(),
            out@ == s@.subrange(from as int, k as int),
        decreases to - k,
    {
        out.push(s[k]);
        assert(s@.subrange(from as int, k + 1) =~= s@.subrange(from as int, k as int).push(s@[k as int]));
        k = k + 1;
    }
    out
}

pub open spec fn well_formed_token(t: Seq<char>) -> bool {
    &&& t.len() > 0
    &&& t[0] != '"' ==> forall|j: int| 0 <= j < t.len() ==> !is_white_space(#[trigger] t[j])
}

/// Every token is non-empty, and only string tokens (those starting with a
/// quote) may hold white space.
pub proof fn lemma_tokens_well_formed(s: Seq<char>, i: int)
    requires
        0 <= i,
    ensures
        forall|k: int|
            0 <= k < spec_tokens_from(s, i).len() ==> well_formed_token(
                #[trigger] spec_tokens_from(s, i)[k],
            ),
    decreases s.len() - i,
{
    if i < s.len() {
        let c = s[i];
        let all = spec_tokens_from(s, i);
        if c == ';' {
            let j = next_index_of(s, '\n', i + 1);
            if j >= 0 {
                lemma_next_index_of_range(s, '\n', i + 1);
                lemma_tokens_well_formed(s, j + 1);
                assert(all == spec_tokens_from(s, j + 1));
            }
        } else if is_bracket(c) {
            lemma_tokens_well_formed(s, i + 1);
            let rest = spec_tokens_from(s, i + 1);
            assert forall|k: int| 0 <= k < all.len() implies well_formed_token(#[trigger] all[k]) by {
                if k > 0 {
                    assert(all[k] == rest[k - 1]);
                } else {
                    assert(all[0] == seq![c]);
                }
            }
        } else if c == '"' {
            let j = next_index_of(s, '"', i + 1);
            if j >= 0 {
                lemma_next_index_of_range(s, '"', i + 1);
                lemma_tokens_well_formed(s, j + 1);
                let rest = spec_tokens_from(s, j + 1);
                let t = seq!['"'] + s.subrange(i + 1, j) + seq!['"'];
                assert(t[0] == '"');
                assert forall|k: int| 0 <= k < all.len() implies well_formed_token(
                    #[trigger] all[k],
                ) by {
                    if k > 0 {
                        assert(all[k] == rest[k - 1]);
                    } else {
                        assert(all[0] == t);
                    }
                }
            } else {
                let t = seq!['"'] + s.subrange(i + 1, s.len() as int) + seq!['"'];
                assert(t[0] == '"');
                assert(all =~= seq![t]);
            }
        } else if is_white_space(c) {
            lemma_tokens_well_formed(s, i + 1);
            assert(all == spec_tokens_from(s, i + 1));
        } else {
            let e = token_stop(s, i + 1);
            lemma_token_stop_range(s, i + 1);
            lemma_tokens_well_formed(s, e);
            let rest = spec_tokens_from(s, e);
            let t = s.subrange(i, e);
            assert forall|j: int| 0 <= j < t.len() implies !is_white_space(#[trigger] t[j]) by {
                if j > 0 {
                    assert(t[j] == s[i + j]);
                }
            }
            assert forall|k: int| 0 <= k < all.len() implies well_formed_token(#[trigger] all[k]) by {
                if k > 0 {
                    assert(all[k] == rest[k - 1]);
                } else {
                    assert(all[0] == t);
                }
            }
        }
    }
}

/// Splits a source text into tokens (see `spec_tokens_from`).
pub fn tokenize(source: &str) -> (r: Vec<String>)
    ensures
        views(r@) == spec_tokens_from(source@, 0),
{
    let s = chars_of(source);
    let ghost g = s@;
    let n = s.len();
    let mut tokens: Vec<String> = Vec::new();
    let mut i: usize = 0;
    assert(views(tokens@) + spec_tokens_from(g, 0) =~= spec_tokens_from(g, 0));
    while i < n
        invariant
            g == s@,
            g == source@,
            n == g.len(),
            i <= n,
            views(tokens@) + spec_tokens_from(g, i as int) == spec_tokens_from(g, 0),
        decreases n - i,
    {
        let c = s[i];
        let ghost before = views(tokens@);
        if c == ';' {
            let mut j = i + 1;
            while j < n && s[j] != '\n'
                invariant
                    i < j <= n,
                    n == g.len(),
                    g == s@,
                    next_index_of(g, '\n', j as int) == next_index_of(g, '\n', i + 1),
                decreases n - j,
            {
                j = j + 1;
            }
            if j >= n {
                assert(next_index_of(g, '\n', j as int) == -1);
                assert(spec_tokens_from(g, i as int) == Seq::<Seq<char>>::empty());
                assert(before + Seq::<Seq<char>>::empty() =~= before);
                assert(spec_tokens_from(g, n as int) == Seq::<Seq<char>>::empty());
                i = n;
                assert(before + spec_tokens_from(g, i as int) =~= before);
            } else {
                i = j + 1;
            }
        } else if c == '(' || c == ')' || c == '[' || c == ']' {
            let tok: Vec<char> = vec![c];
            assert(tok@ =~= seq![c]);
            tokens.push(string_of(tok.as_slice()));
            assert(views(tokens@) =~= before.push(seq![c]));
            assert(before + (seq![seq![c]] + spec_tokens_from(g, i + 1)) =~= views(tokens@)
                + spec_tokens_from(g, i + 1));
            i = i + 1;
        } else if c == '"' {
            let mut j = i + 1;
            while j < n && s[j] != '"'
                invariant
                    i < j <= n,
                    n == g.len(),
                    g == s@,
                    next_index_of(g, '"', j as int) == next_index_of(g, '"', i + 1),
                decreases n - j,
            {
                j = j + 1;
            }
            let mut text = String::new();
            push_char(&mut text, '"');
            let inner = copy_range(s.as_slice(), i + 1, j);
            text.append(string_of(inner.as_slice()).as_str());
            push_char(&mut text, '"');
            assert(text@ =~= seq!['"'] + g.subrange(i + 1, j as int) + seq!['"']);
            tokens.push(text);
            if j >= n {
                assert(next_index_of(g, '"', j as int) == -1);
                let ghost tk = seq!['"'] + g.subrange(i + 1, n as int) + seq!['"'];
                assert(views(tokens@) =~= before.push(tk));
                assert(spec_tokens_from(g, n as int) == Seq::<Seq<char>>::empty());
                assert(before + seq![tk] =~= views(tokens@) + spec_tokens_from(g, n as int));
                i = n;
            } else {
                let ghost tk = seq!['"'] + g.subrange(i + 1, j as int) + seq!['"'];
                assert(views(tokens@) =~= before.push(tk));
                assert(before + (seq![tk] + spec_tokens_from(g, j + 1)) =~= views(tokens@)
                    + spec_tokens_from(g, j + 1));
                i = j + 1;
            }
        } else if char_is_whitespace(c) {
            i = i + 1;
        } else {
            let mut e = i + 1;
            while e < n && !(char_is_whitespace(s[e]) || s[e] == '(' || s[e] == ')' || s[e] == '['
                || s[e] == ']')
                invariant
                    i < e <= n,
                    n == g.len(),
                    g == s@,
                    token_stop(g, e as int) == token_stop(g, i + 1),
                decreases n - e,
            {
                e = e + 1;
            }
            let atom = copy_range(s.as_slice(), i, e);
            tokens.push(string_of(atom.as_slice()));
            let ghost tk = g.subrange(i as int, e as int);
            assert(views(tokens@) =~= before.push(tk));
            assert(before + (seq![tk] + spec_tokens_from(g, e as int)) =~= views(tokens@)
                + spec_tokens_from(g, e as int));
            i = e;
        }
    }
    assert(spec_tokens_from(g, i as int) == Seq::<Seq<char>>::empty());
    assert(views(tokens@) + Seq::<Seq<char>>::empty() =~= views(tokens@));
    tokens
}

/// The file named by a line of the form `(include "path")`, spaces around
/// the parts allowed.
pub open spec fn spec_include_path(line: Seq<char>) -> Option<Seq<char>> {
    let t = trim(line);
    if !has_prefix(t, "(include"@) {
        None
    } else {
        let r1 = t.subrange(8, t.len() as int);
        let r2 = r1.subrange(skip_white(r1, 0), r1.len() as int);
        if r2.len() == 0 || r2[0] != '"' {
            None
        } else {
            let r3 = r2.drop_first();
            let k = first_index_of(r3, '"');
            if k < 0 {
                None
            } else if trim(r3.subrange(k + 1, r3.len() as int)) == seq![')'] {
                Some(r3.subrange(0, k))
            } else {
                None
            }
        }
    }
}

proof fn lemma_skip_white_bounds(s: Seq<char>, i: int)
    requires
        0 <= i <= s.len(),
    ensures
        i <= skip_white(s, i) <= s.len(),
    decreases s.len() - i,
{
    if i < s.len() && is_white_space(s[i]) {
        lemma_skip_white_bounds(s, i + 1);
    }
}

/// The path of an `(include "path")` line, if the line is one.
pub fn include_path_from_line(line: &str) -> (r: Option<String>)
    ensures
        match spec_include_path(line@) {
            Some(p) => r matches Some(x) && x@ == p,
            None => r is None,
        },
{
    let c = chars_of(line);
    let t = trim_chars(c.as_slice());
    let prefix = chars_of("(include");
    proof {
        reveal_strlit("(include");
    }
    if !starts_with_chars(t.as_slice(), prefix.as_slice()) {
        return None;
    }
    let ghost r1 = t@.subrange(8, t@.len() as int);
    let mut b: usize = 8;
    proof {
        lemma_skip_white_bounds(r1, 0);
    }
    while b < t.len() && char_is_whitespace(t[b])
        invariant
            8 <= b <= t@.len(),
            r1 == t@.subrange(8, t@.len() as int),
            skip_white(r1, b - 8) == skip_white(r1, 0),
        decreases t@.len() - b,
    {
        b = b + 1;
    }
    assert(skip_white(r1, b - 8) == b - 8);
    if b >= t.len() || t[b] != '"' {
        return None;
    }
    let ghost r2 = r1.subrange(b - 8, r1.len() as int);
    let ghost r3 = r2.drop_first();
    assert(r3 =~= t@.subrange(b + 1, t@.len() as int));
    let mut k = b + 1;
    while k < t.len() && t[k] != '"'
        invariant
            b + 1 <= k <= t@.len(),
            r3 == t@.subrange(b + 1, t@.len() as int),
            forall|j: int| b + 1 <= j < k ==> t@[j] != '"',
        decreases t@.len() - k,
    {
        k = k + 1;
    }
    proof {
        lemma_first_index_bounds(r3, '"');
        let fi = first_index_of(r3, '"');
        if k < t.len() {
            assert(r3[k - b - 1] == '"');
            if fi >= 0 && fi < k - b - 1 {
                assert(r3[fi] == t@[b + 1 + fi]);
            }
            assert(fi == k - b - 1);
        } else {
            if fi >= 0 {
                assert(r3[fi] == t@[b + 1 + fi]);
            }
            assert(fi < 0);
        }
    }
    if k >= t.len() {
        return None;
    }
    let mut after: Vec<char> = Vec::new();
    let mut j = k + 1;
    while j < t.len()
        invariant
            k + 1 <= j <= t@.len(),
            after@ == t@.subrange(k + 1, j as int),
        decreases t@.len() - j,
    {
        after.push(t[j]);
        assert(t@.subrange(k + 1, j + 1) =~= t@.subrange(k + 1, j as int).push(t@[j as int]));
        j = j + 1;
    }
    assert(after@ =~= r3.subrange(k - b - 1 + 1, r3.len() as int));
    let after_t = trim_chars(after.as_slice());
    let close: Vec<char> = vec![')'];
    assert(close@ =~= seq![')']);
    if !chars_eq(after_t.as_slice(), close.as_slice()) {
        return None;
    }
    let mut path: Vec<char> = Vec::new();
    let mut q = b + 1;
    while q < k
        invariant
            b + 1 <= q <= k,
            k <= t@.len(),
            path@ == t@.subrange(b + 1, q as int),
        decreases k - q,
    {
        path.push(t[q]);
        assert(t@.subrange(b + 1, q + 1) =~= t@.subrange(b + 1, q as int).push(t@[q as int]));
        q = q + 1;
    }
    assert(path@ =~= r3.subrange(0, k - b - 1));
    Some(string_of(path.as_slice()))
}

/// The trimmed lines of a text that are not empty once trimmed.
pub open spec fn nonempty_trimmed(lines: Seq<Seq<char>>) -> Seq<Seq<char>>
    decreases lines.len(),
{
    if lines.len() == 0 {
        Seq::empty()
    } else {
        let rest = nonempty_trimmed(lines.drop_last());
        if trim(lines.last()).len() > 0 {
            rest.push(trim(lines.last()))
        } else {
            rest
        }
    }
}

/// The message a compiler report gives: the line after the first line that
/// starts with "Execution error" (or that line itself when it is the last),
/// unless a line starting with "Full report at:" comes first.
pub open spec fn compiler_message(lines: Seq<Seq<char>>, i: int) -> Option<Seq<char>>
    decreases lines.len() - i,
{
    if i < 0 || i >= lines.len() {
        None
    } else if has_prefix(lines[i], "Execution error"@) {
        Some(
            if i + 1 < lines.len() {
                lines[i + 1]
            } else {
                lines[i]
            },
        )
    } else if has_prefix(lines[i], "Full report at:"@) {
        None
    } else {
        compiler_message(lines, i + 1)
    }
}

pub open spec fn spec_clean_compiler_error(stderr: Seq<char>) -> Seq<char> {
    match compiler_message(nonempty_trimmed(lines_of(stderr)), 0) {
        Some(m) => m,
        None => stderr,
    }
}

/// The useful line of a compiler's error output, or the whole output.
pub fn clean_compiler_error(stderr: &str) -> (r: String)
    ensures
        r@ == spec_clean_compiler_error(stderr@),
{
    let raw = split_lines(stderr);
    let ghost lv = lines_of(stderr@);
    let mut lines: Vec<Vec<char>> = Vec::new();
    let mut i: usize = 0;
    while i < raw.len()
        invariant
            i <= raw@.len(),
            views(raw@) == lv,
            lines@.map_values(|l: Vec<char>| l@) == nonempty_trimmed(lv.subrange(0, i as int)),
        decreases raw@.len() - i,
    {
        let c = chars_of(raw[i].as_str());
        let t = trim_chars(c.as_slice());
        let ghost prev = lines@.map_values(|l: Vec<char>| l@);
        assert(lv.subrange(0, i + 1).drop_last() =~= lv.subrange(0, i as int));
        assert(lv.subrange(0, i + 1).last() == raw@[i as int]@);
        if t.len() > 0 {
            lines.push(t);
            assert(lines@.map_values(|l: Vec<char>| l@) =~= prev.push(trim(raw@[i as int]@)));
        }
        i = i + 1;
    }
    assert(lv.subrange(0, raw@.len() as int) =~= lv);
    let ghost ls = lines@.map_values(|l: Vec<char>| l@);
    let exec_prefix = chars_of("Execution error");
    let full_prefix = chars_of("Full report at:");
    let mut k: usize = 0;
    while k < lines.len()
        invariant
            k <= lines@.len(),
            ls == lines@.map_values(|l: Vec<char>| l@),
            ls == nonempty_trimmed(lines_of(stderr@)),
            exec_prefix@ == "Execution error"@,
            full_prefix@ == "Full report at:"@,
            compiler_message(ls, k as int) == compiler_message(ls, 0),
        decreases lines@.len() - k,
    {
        assert(ls[k as int] == lines@[k as int]@);
        if starts_with_chars(lines[k].as_slice(), exec_prefix.as_slice()) {
            if k + 1 < lines.len() {
                assert(ls[k + 1] == lines@[k + 1]@);
                return string_of(lines[k + 1].as_slice());
            }
            return string_of(lines[k].as_slice());
        }
        if starts_with_chars(lines[k].as_slice(), full_prefix.as_slice()) {
            return String::from_str(stderr);
        }
        k = k + 1;
    }
    String::from_str(stderr)
}

/// Canonicalising scene option names twice changes nothing: the canonical spellings
/// are their own canonical forms.
pub proof fn lemma_scene_option_canonical_key_idempotent(key: Seq<char>)
    ensures
        spec_scene_option_canonical_key(spec_scene_option_canonical_key(key)) == spec_scene_option_canonical_key(key),
{
    assert(spec_scene_option_canonical_key("repeat"@) == "repeat"@) by {
        reveal_strlit("repeat");
        assert(seq!["repeat"@, "repeats"@, "times"@, "loop"@][0] == "repeat"@);
    }
    assert(spec_scene_option_canonical_key("steps"@) == "steps"@) by {
        reveal_strlit("loop");
        reveal_strlit("repeat");
        reveal_strlit("repeats");
        reveal_strlit("steps");
        reveal_strlit("times");
        assert("steps"@.len() != "repeat"@.len());
        assert("steps"@.len() != "repeats"@.len());
        assert("steps"@[0] != "times"@[0]);
        assert("steps"@.len() != "loop"@.len());
        assert(seq!["steps"@, "length"@, "bars"@, "steps-of"@, "length-of"@, "loop-by"@][0] == "steps"@);
    }
    assert(spec_scene_option_canonical_key("bar-steps"@) == "bar-steps"@) by {
        reveal_strlit("bar-steps");
        reveal_strlit("bars");
        reveal_strlit("length");
        reveal_strlit("length-of");
        reveal_strlit("loop");
        reveal_strlit("loop-by");
        reveal_strlit("repeat");
        reveal_strlit("repeats");
        reveal_strlit("steps");
        reveal_strlit("steps-of");
        reveal_strlit("times");
        assert("bar-steps"@.len() != "repeat"@.len());
        assert("bar-steps"@.len() != "repeats"@.len());
        assert("bar-steps"@.len() != "times"@.len());
        assert("bar-steps"@.len() != "loop"@.len());
        assert("bar-steps"@.len() != "steps"@.len());
        assert("bar-steps"@.len() != "length"@.len());
        assert("bar-steps"@.len() != "bars"@.len());
        assert("bar-steps"@.len() != "steps-of"@.len());
        assert("bar-steps"@[0] != "length-of"@[0]);
        assert("bar-steps"@.len() != "loop-by"@.len());
        assert(seq!["bar-steps"@, "bar-length"@, "bar-steps-of"@, "bar-length-of"@][0] == "bar-steps"@);
    }
}

/// Canonicalising track parameter names twice changes nothing: the canonical spellings
/// are their own canonical forms.
pub proof fn lemma_track_param_canonical_key_idempotent(key: Seq<char>)
    ensures
        spec_track_param_canonical_key(spec_track_param_canonical_key(key)) == spec_track_param_canonical_key(key),
{
    assert(spec_track_param_canonical_key("detune"@) == "detune"@) by {
        reveal_strlit("detune");
        assert(seq!["detune"@, "detune-cents"@][0] == "detune"@);
    }
    assert(spec_track_param_canonical_key("pulse-width"@) == "pulse-width"@) by {
        reveal_strlit("detune");
        reveal_strlit("detune-cents");
        reveal_strlit("pulse-width");
        assert("pulse-width"@.len() != "detune"@.len());
        assert("pulse-width"@.len() != "detune-cents"@.len());
        assert(seq!["pulse-width"@, "pulse_width"@, "pw"@][0] == "pulse-width"@);
    }
    assert(spec_track_param_canonical_key("morph"@) == "morph"@) by {
        reveal_strlit("detune");
        reveal_strlit("detune-cents");
        reveal_strlit("morph");
        reveal_strlit("pulse-width");
        reveal_strlit("pulse_width");
        reveal_strlit("pw");
        assert("morph"@.len() != "detune"@.len());
        assert("morph"@.len() != "detune-cents"@.len());
        assert("morph"@.len() != "pulse-width"@.len());
        assert("morph"@.len() != "pulse_width"@.len());
        assert("morph"@.len() != "pw"@.len());
        assert(seq!["morph"@, "morph-pos"@, "morph_pos"@][0] == "morph"@);
    }
    assert(spec_track_param_canonical_key("unison-detune"@) == "unison-detune"@) by {
        reveal_strlit("detune");
        reveal_strlit("detune-cents");
        reveal_strlit("morph");
        reveal_strlit("morph-pos");
        reveal_strlit("morph_pos");
        reveal_strlit("pulse-width");
        reveal_strlit("pulse_width");
        reveal_strlit("pw");
        reveal_strlit("unison-detune");
        assert("unison-detune"@.len() != "detune"@.len());
        assert("unison-detune"@.len() != "detune-cents"@.len());
        assert("unison-detune"@.len() != "pulse-width"@.len());
        assert("unison-detune"@.len() != "pulse_width"@.len());
        assert("unison-detune"@.len() != "pw"@.len());
        assert("unison-detune"@.len() != "morph"@.len());
        assert("unison-detune"@.len() != "morph-pos"@.len());
        assert("unison-detune"@.len() != "morph_pos"@.len());
        assert(seq!["unison-detune"@, "unison_detune"@][0] == "unison-detune"@);
    }
    assert(spec_track_param_canonical_key("unison-spread"@) == "unison-spread"@) by {
        reveal_strlit("detune");
        reveal_strlit("detune-cents");
        reveal_strlit("morph");
        reveal_strlit("morph-pos");
        reveal_strlit("morph_pos");
        reveal_strlit("pulse-width");
        reveal_strlit("pulse_width");
        reveal_strlit("pw");
        reveal_strlit("unison-detune");
        reveal_strlit("unison-spread");
        reveal_strlit("unison_detune");
        assert("unison-spread"@.len() != "detune"@.len());
        assert("unison-spread"@.len() != "detune-cents"@.len());
        assert("unison-spread"@.len() != "pulse-width"@.len());
        assert("unison-spread"@.len() != "pulse_width"@.len());
        assert("unison-spread"@.len() != "pw"@.len());
        assert("unison-spread"@.len() != "morph"@.len());
        assert("unison-spread"@.len() != "morph-pos"@.len());
        assert("unison-spread"@.len() != "morph_pos"@.len());
        assert("unison-spread"@[7] != "unison-detune"@[7]);
        assert("unison-spread"@[6] != "unison_detune"@[6]);
        assert(seq!["unison-spread"@, "unison_spread"@, "spread"@][0] == "unison-spread"@);
    }
    assert(spec_track_param_canonical_key("fm-ratio"@) == "fm-ratio"@) by {
        reveal_strlit("detune");
        reveal_strlit("detune-cents");
        reveal_strlit("fm-ratio");
        reveal_strlit("morph");
        reveal_strlit("morph-pos");
        reveal_strlit("morph_pos");
        reveal_strlit("pulse-width");
        reveal_strlit("pulse_width");
        reveal_strlit("pw");
        reveal_strlit("spread");
        reveal_strlit("unison-detune");
        reveal_strlit("unison-spread");
        reveal_strlit("unison_detune");
        reveal_strlit("unison_spread");
        assert("fm-ratio"@.len() != "detune"@.len());
        assert("fm-ratio"@.len() != "detune-cents"@.len());
        assert("fm-ratio"@.len() != "pulse-width"@.len());
        assert("fm-ratio"@.len() != "pulse_width"@.len());
        assert("fm-ratio"@.len() != "pw"@.len());
        assert("fm-ratio"@.len() != "morph"@.len());
        assert("fm-ratio"@.len() != "morph-pos"@.len());
        assert("fm-ratio"@.len() != "morph_pos"@.len());
        assert("fm-ratio"@.len() != "unison-detune"@.len());
        assert("fm-ratio"@.len() != "unison_detune"@.len());
        assert("fm-ratio"@.len() != "unison-spread"@.len());
        assert("fm-ratio"@.len() != "unison_spread"@.len());
        assert("fm-ratio"@.len() != "spread"@.len());
        assert(seq!["fm-ratio"@, "fm_ratio"@][0] == "fm-ratio"@);
    }
    assert(spec_track_param_canonical_key("fm-depth"@) == "fm-depth"@) by {
        reveal_strlit("detune");
        reveal_strlit("detune-cents");
        reveal_strlit("fm-depth");
        reveal_strlit("fm-ratio");
        reveal_strlit("fm_ratio");
        reveal_strlit("morph");
        reveal_strlit("morph-pos");
        reveal_strlit("morph_pos");
        reveal_strlit("pulse-width");
        reveal_strlit("pulse_width");
        reveal_strlit("pw");
        reveal_strlit("spread");
        reveal_strlit("unison-detune");
        reveal_strlit("unison-spread");
        reveal_strlit("unison_detune");
        reveal_strlit("unison_spread");
        assert("fm-depth"@.len() != "detune"@.len());
        assert("fm-depth"@.len() != "detune-cents"@.len());
        assert("fm-depth"@.len() != "pulse-width"@.len());
        assert("fm-depth"@.len() != "pulse_width"@.len());
        assert("fm-depth"@.len() != "pw"@.len());
        assert("fm-depth"@.len() != "morph"@.len());
        assert("fm-depth"@.len() != "morph-pos"@.len());
        assert("fm-depth"@.len() != "morph_pos"@.len());
        assert("fm-depth"@.len() != "unison-detune"@.len());
        assert("fm-depth"@.len() != "unison_detune"@.len());
        assert("fm-depth"@.len() != "unison-spread"@.len());
        assert("fm-depth"@.len() != "unison_spread"@.len());
        assert("fm-depth"@.len() != "spread"@.len());
        assert("fm-depth"@[3] != "fm-ratio"@[3]);
        assert("fm-depth"@[2] != "fm_ratio"@[2]);
        assert(seq!["fm-depth"@, "fm_depth"@][0] == "fm-depth"@);
    }
    assert(spec_track_param_canonical_key("sample"@) == "sample"@) by {
        reveal_strlit("detune");
        reveal_strlit("detune-cents");
        reveal_strlit("fm-depth");
        reveal_strlit("fm-ratio");
        reveal_strlit("fm_depth");
        reveal_strlit("fm_ratio");
        reveal_strlit("morph");
        reveal_strlit("morph-pos");
        reveal_strlit("morph_pos");
        reveal_strlit("pulse-width");
        reveal_strlit("pulse_width");
        reveal_strlit("pw");
        reveal_strlit("sample");
        reveal_strlit("spread");
        reveal_strlit("unison-detune");
        reveal_strlit("unison-spread");
        reveal_strlit("unison_detune");
        reveal_strlit("unison_spread");
        assert("sample"@[0] != "detune"@[0]);
        assert("sample"@.len() != "detune-cents"@.len());
        assert("sample"@.len() != "pulse-width"@.len());
        assert("sample"@.len() != "pulse_width"@.len());
        assert("sample"@.len() != "pw"@.len());
        assert("sample"@.len() != "morph"@.len());
        assert("sample"@.len() != "morph-pos"@.len());
        assert("sample"@.len() != "morph_pos"@.len());
        assert("sample"@.len() != "unison-detune"@.len());
        assert("sample"@.len() != "unison_detune"@.len());
        assert("sample"@.len() != "unison-spread"@.len());
        assert("sample"@.len() != "unison_spread"@.len());
        assert("sample"@[1] != "spread"@[1]);
        assert("sample"@.len() != "fm-ratio"@.len());
        assert("sample"@.len() != "fm_ratio"@.len());
        assert("sample"@.len() != "fm-depth"@.len());
        assert("sample"@.len() != "fm_depth"@.len());
        assert(seq!["sample"@, "sample-path"@, "sample_path"@, "sample-data"@, "sample_data"@][0] == "sample"@);
    }
    assert(spec_track_param_canonical_key("choke"@) == "choke"@) by {
        reveal_strlit("choke");
        reveal_strlit("detune");
        reveal_strlit("detune-cents");
        reveal_strlit("fm-depth");
        reveal_strlit("fm-ratio");
        reveal_strlit("fm_depth");
        reveal_strlit("fm_ratio");
        reveal_strlit("morph");
        reveal_strlit("morph-pos");
        reveal_strlit("morph_pos");
        reveal_strlit("pulse-width");
        reveal_strlit("pulse_width");
        reveal_strlit("pw");
        reveal_strlit("sample");
        reveal_strlit("sample-data");
        reveal_strlit("sample-path");
        reveal_strlit("sample_data");
        reveal_strlit("sample_path");
        reveal_strlit("spread");
        reveal_strlit("unison-detune");
        reveal_strlit("unison-spread");
        reveal_strlit("unison_detune");
        reveal_strlit("unison_spread");
        assert("choke"@.len() != "detune"@.len());
        assert("choke"@.len() != "detune-cents"@.len());
        assert("choke"@.len() != "pulse-width"@.len());
        assert("choke"@.len() != "pulse_width"@.len());
        assert("choke"@.len() != "pw"@.len());
        assert("choke"@[0] != "morph"@[0]);
        assert("choke"@.len() != "morph-pos"@.len());
        assert("choke"@.len() != "morph_pos"@.len());
        assert("choke"@.len() != "unison-detune"@.len());
        assert("choke"@.len() != "unison_detune"@.len());
        assert("choke"@.len() != "unison-spread"@.len());
        assert("choke"@.len() != "unison_spread"@.len());
        assert("choke"@.len() != "spread"@.len());
        assert("choke"@.len() != "fm-ratio"@.len());
        assert("choke"@.len() != "fm_ratio"@.len());
        assert("choke"@.len() != "fm-depth"@.len());
        assert("choke"@.len() != "fm_depth"@.len());
        assert("choke"@.len() != "sample"@.len());
        assert("choke"@.len() != "sample-path"@.len());
        assert("choke"@.len() != "sample_path"@.len());
        assert("choke"@.len() != "sample-data"@.len());
        assert("choke"@.len() != "sample_data"@.len());
        assert(seq!["choke"@, "cut"@][0] == "choke"@);
    }
}

} // verus!

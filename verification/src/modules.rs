//! The module types of the synthesizer and their names in the patch language.

use vstd::prelude::*;
use vstd::string::StringExecFns;
use crate::text::{chars_of, is_text};

verus! {

/// The built-in module types.
#[derive(Debug, Clone, Copy, PartialEq, Eq, Structural)]
pub enum ModuleType {
    Oscillator,
    Filter,
    Envelope,
    Vca,
    Mixer,
    StereoMixer,
    Output,
    Lfo,
    ManualGate,
    StereoOutput,
    Noise,
    Slew,
    Seq8,
    Visual,
    Mult,
    Switch,
    ClockDiv,
    SampleHold,
}

/// A type name that stands for no built-in module type.
#[derive(Debug)]
pub struct UnknownModuleType {
    pub name: String,
}

impl UnknownModuleType {
    /// The text shown to the user.
    pub fn message(&self) -> (r: String)
        ensures
            r@ == "Unknown module type: "@ + self.name@,
    {
        String::from_str("Unknown module type: ").concat(self.name.as_str())
    }
}

/// The module type that a type name of the patch language stands for.
pub open spec fn module_type_of(s: Seq<char>) -> Option<ModuleType> {
    if s == "osc"@ {
        Some(ModuleType::Oscillator)
    } else if s == "filter"@ {
        Some(ModuleType::Filter)
    } else if s == "env"@ || s == "envelope"@ {
        Some(ModuleType::Envelope)
    } else if s == "vca"@ {
        Some(ModuleType::Vca)
    } else if s == "mix"@ || s == "mixer"@ || s == "mono_mixer"@ {
        Some(ModuleType::Mixer)
    } else if s == "stereomix"@ || s == "stereo_mixer"@ || s == "stereo_mix"@ {
        Some(ModuleType::StereoMixer)
    } else if s == "out"@ || s == "output"@ {
        Some(ModuleType::Output)
    } else if s == "lfo"@ {
        Some(ModuleType::Lfo)
    } else if s == "gate"@ || s == "manual"@ {
        Some(ModuleType::ManualGate)
    } else if s == "stereo_out"@ {
        Some(ModuleType::StereoOutput)
    } else if s == "noise"@ || s == "noise_gen"@ {
        Some(ModuleType::Noise)
    } else if s == "slew"@ || s == "slew_gen"@ {
        Some(ModuleType::Slew)
    } else if s == "seq8"@ || s == "sequencer"@ {
        Some(ModuleType::Seq8)
    } else if s == "visual"@ || s == "scope"@ || s == "debug"@ {
        Some(ModuleType::Visual)
    } else if s == "mult"@ || s == "multiple"@ {
        Some(ModuleType::Mult)
    } else if s == "switch"@ || s == "seq_switch"@ {
        Some(ModuleType::Switch)
    } else if s == "clockdiv"@ || s == "clock_div"@ || s == "divider"@ {
        Some(ModuleType::ClockDiv)
    } else if s == "samplehold"@ || s == "sample_hold"@ || s == "sh"@ {
        Some(ModuleType::SampleHold)
    } else {
        None
    }
}

/// Reads a type name given as characters.
pub fn module_type_from(v: &Vec<char>) -> (r: Option<ModuleType>)
    ensures
        r == module_type_of(v@),
{
    if is_text(v, "osc") {
        Some(ModuleType::Oscillator)
    } else if is_text(v, "filter") {
        Some(ModuleType::Filter)
    } else if is_text(v, "env") || is_text(v, "envelope") {
        Some(ModuleType::Envelope)
    } else if is_text(v, "vca") {
        Some(ModuleType::Vca)
    } else if is_text(v, "mix") || is_text(v, "mixer") || is_text(v, "mono_mixer") {
        Some(ModuleType::Mixer)
    } else if is_text(v, "stereomix") || is_text(v, "stereo_mixer") || is_text(v, "stereo_mix") {
        Some(ModuleType::StereoMixer)
    } else if is_text(v, "out") || is_text(v, "output") {
        Some(ModuleType::Output)
    } else if is_text(v, "lfo") {
        Some(ModuleType::Lfo)
    } else if is_text(v, "gate") || is_text(v, "manual") {
        Some(ModuleType::ManualGate)
    } else if is_text(v, "stereo_out") {
        Some(ModuleType::StereoOutput)
    } else if is_text(v, "noise") || is_text(v, "noise_gen") {
        Some(ModuleType::Noise)
    } else if is_text(v, "slew") || is_text(v, "slew_gen") {
        Some(ModuleType::Slew)
    } else if is_text(v, "seq8") || is_text(v, "sequencer") {
        Some(ModuleType::Seq8)
    } else if is_text(v, "visual") || is_text(v, "scope") || is_text(v, "debug") {
        Some(ModuleType::Visual)
    } else if is_text(v, "mult") || is_text(v, "multiple") {
        Some(ModuleType::Mult)
    } else if is_text(v, "switch") || is_text(v, "seq_switch") {
        Some(ModuleType::Switch)
    } else if is_text(v, "clockdiv") || is_text(v, "clock_div") || is_text(v, "divider") {
        Some(ModuleType::ClockDiv)
    } else if is_text(v, "samplehold") || is_text(v, "sample_hold") || is_text(v, "sh") {
        Some(ModuleType::SampleHold)
    } else {
        None
    }
}

/// Reads a type name of the patch language. A name that stands for no
/// built-in type is handed back in the error.
pub fn parse_module_type(s: &str) -> (r: Result<ModuleType, UnknownModuleType>)
    ensures
        match r {
            Ok(t) => module_type_of(s@) == Some(t),
            Err(e) => module_type_of(s@) is None && e.name@ == s@,
        },
{
    let v = chars_of(s);
    match module_type_from(&v) {
        Some(t) => Ok(t),
        None => Err(UnknownModuleType { name: String::from_str(s) }),
    }
}

impl ModuleType {
    /// The name under which a module type is written out.
    pub open spec fn spec_name(self) -> Seq<char> {
        match self {
            ModuleType::Oscillator => "osc"@,
            ModuleType::Filter => "filter"@,
            ModuleType::Envelope => "env"@,
            ModuleType::Vca => "vca"@,
            ModuleType::Mixer => "mix"@,
            ModuleType::StereoMixer => "stereomix"@,
            ModuleType::Output => "out"@,
            ModuleType::Lfo => "lfo"@,
            ModuleType::ManualGate => "gate"@,
            ModuleType::StereoOutput => "stereo_out"@,
            ModuleType::Noise => "noise"@,
            ModuleType::Slew => "slew"@,
            ModuleType::Seq8 => "seq8"@,
            ModuleType::Visual => "visual"@,
            ModuleType::Mult => "mult"@,
            ModuleType::Switch => "switch"@,
            ModuleType::ClockDiv => "clockdiv"@,
            ModuleType::SampleHold => "samplehold"@,
        }
    }

    /// The name under which the module type is written out.
    pub fn name(self) -> (r: &'static str)
        ensures
            r@ == self.spec_name(),
    {
        match self {
            ModuleType::Oscillator => "osc",
            ModuleType::Filter => "filter",
            ModuleType::Envelope => "env",
            ModuleType::Vca => "vca",
            ModuleType::Mixer => "mix",
            ModuleType::StereoMixer => "stereomix",
            ModuleType::Output => "out",
            ModuleType::Lfo => "lfo",
            ModuleType::ManualGate => "gate",
            ModuleType::StereoOutput => "stereo_out",
            ModuleType::Noise => "noise",
            ModuleType::Slew => "slew",
            ModuleType::Seq8 => "seq8",
            ModuleType::Visual => "visual",
            ModuleType::Mult => "mult",
            ModuleType::Switch => "switch",
            ModuleType::ClockDiv => "clockdiv",
            ModuleType::SampleHold => "samplehold",
        }
    }

    /// The name of the variant.
    pub open spec fn spec_variant_name(self) -> Seq<char> {
        match self {
            ModuleType::Oscillator => "Oscillator"@,
            ModuleType::Filter => "Filter"@,
            ModuleType::Envelope => "Envelope"@,
            ModuleType::Vca => "Vca"@,
            ModuleType::Mixer => "Mixer"@,
            ModuleType::StereoMixer => "StereoMixer"@,
            ModuleType::Output => "Output"@,
            ModuleType::Lfo => "Lfo"@,
            ModuleType::ManualGate => "ManualGate"@,
            ModuleType::StereoOutput => "StereoOutput"@,
            ModuleType::Noise => "Noise"@,
            ModuleType::Slew => "Slew"@,
            ModuleType::Seq8 => "Seq8"@,
            ModuleType::Visual => "Visual"@,
            ModuleType::Mult => "Mult"@,
            ModuleType::Switch => "Switch"@,
            ModuleType::ClockDiv => "ClockDiv"@,
            ModuleType::SampleHold => "SampleHold"@,
        }
    }

    /// The name of the variant, as it stands in messages.
    pub fn variant_name(self) -> (r: &'static str)
        ensures
            r@ == self.spec_variant_name(),
    {
        match self {
            ModuleType::Oscillator => "Oscillator",
            ModuleType::Filter => "Filter",
            ModuleType::Envelope => "Envelope",
            ModuleType::Vca => "Vca",
            ModuleType::Mixer => "Mixer",
            ModuleType::StereoMixer => "StereoMixer",
            ModuleType::Output => "Output",
            ModuleType::Lfo => "Lfo",
            ModuleType::ManualGate => "ManualGate",
            ModuleType::StereoOutput => "StereoOutput",
            ModuleType::Noise => "Noise",
            ModuleType::Slew => "Slew",
            ModuleType::Seq8 => "Seq8",
            ModuleType::Visual => "Visual",
            ModuleType::Mult => "Mult",
            ModuleType::Switch => "Switch",
            ModuleType::ClockDiv => "ClockDiv",
            ModuleType::SampleHold => "SampleHold",
        }
    }

    /// The name as an owned string.
    pub fn to_string(self) -> (r: String)
        ensures
            r@ == self.spec_name(),
    {
        String::from_str(self.name())
    }
}

/// Reveals what the type names hold.
pub proof fn reveal_type_names()
    ensures
        "osc"@ == seq!['o', 's', 'c'],
        "filter"@ == seq!['f', 'i', 'l', 't', 'e', 'r'],
        "env"@ == seq!['e', 'n', 'v'],
        "vca"@ == seq!['v', 'c', 'a'],
        "mix"@ == seq!['m', 'i', 'x'],
        "stereomix"@ == seq!['s', 't', 'e', 'r', 'e', 'o', 'm', 'i', 'x'],
        "out"@ == seq!['o', 'u', 't'],
        "lfo"@ == seq!['l', 'f', 'o'],
        "gate"@ == seq!['g', 'a', 't', 'e'],
        "stereo_out"@ == seq!['s', 't', 'e', 'r', 'e', 'o', '_', 'o', 'u', 't'],
        "noise"@ == seq!['n', 'o', 'i', 's', 'e'],
        "slew"@ == seq!['s', 'l', 'e', 'w'],
        "seq8"@ == seq!['s', 'e', 'q', '8'],
        "visual"@ == seq!['v', 'i', 's', 'u', 'a', 'l'],
        "mult"@ == seq!['m', 'u', 'l', 't'],
        "switch"@ == seq!['s', 'w', 'i', 't', 'c', 'h'],
        "clockdiv"@ == seq!['c', 'l', 'o', 'c', 'k', 'd', 'i', 'v'],
        "samplehold"@ == seq!['s', 'a', 'm', 'p', 'l', 'e', 'h', 'o', 'l', 'd'],
{
    reveal_strlit("osc");
    reveal_strlit("filter");
    reveal_strlit("env");
    reveal_strlit("vca");
    reveal_strlit("mix");
    reveal_strlit("stereomix");
    reveal_strlit("out");
    reveal_strlit("lfo");
    reveal_strlit("gate");
    reveal_strlit("stereo_out");
    reveal_strlit("noise");
    reveal_strlit("slew");
    reveal_strlit("seq8");
    reveal_strlit("visual");
    reveal_strlit("mult");
    reveal_strlit("switch");
    reveal_strlit("clockdiv");
    reveal_strlit("samplehold");
    assert("osc"@ =~= seq!['o', 's', 'c']);
    assert("filter"@ =~= seq!['f', 'i', 'l', 't', 'e', 'r']);
    assert("env"@ =~= seq!['e', 'n', 'v']);
    assert("vca"@ =~= seq!['v', 'c', 'a']);
    assert("mix"@ =~= seq!['m', 'i', 'x']);
    assert("stereomix"@ =~= seq!['s', 't', 'e', 'r', 'e', 'o', 'm', 'i', 'x']);
    assert("out"@ =~= seq!['o', 'u', 't']);
    assert("lfo"@ =~= seq!['l', 'f', 'o']);
    assert("gate"@ =~= seq!['g', 'a', 't', 'e']);
    assert("stereo_out"@ =~= seq!['s', 't', 'e', 'r', 'e', 'o', '_', 'o', 'u', 't']);
    assert("noise"@ =~= seq!['n', 'o', 'i', 's', 'e']);
    assert("slew"@ =~= seq!['s', 'l', 'e', 'w']);
    assert("seq8"@ =~= seq!['s', 'e', 'q', '8']);
    assert("visual"@ =~= seq!['v', 'i', 's', 'u', 'a', 'l']);
    assert("mult"@ =~= seq!['m', 'u', 'l', 't']);
    assert("switch"@ =~= seq!['s', 'w', 'i', 't', 'c', 'h']);
    assert("clockdiv"@ =~= seq!['c', 'l', 'o', 'c', 'k', 'd', 'i', 'v']);
    assert("samplehold"@ =~= seq!['s', 'a', 'm', 'p', 'l', 'e', 'h', 'o', 'l', 'd']);
}

/// Every module type is read back from the name it is written out with.
pub proof fn lemma_name_reads_back(t: ModuleType)
    ensures
        module_type_of(t.spec_name()) == Some(t),
{
    reveal_type_names();
    reveal_strlit("envelope");
    reveal_strlit("mixer");
    reveal_strlit("mono_mixer");
    reveal_strlit("stereo_mixer");
    reveal_strlit("stereo_mix");
    reveal_strlit("output");
    reveal_strlit("manual");
    reveal_strlit("noise_gen");
    reveal_strlit("slew_gen");
    reveal_strlit("sequencer");
    reveal_strlit("scope");
    reveal_strlit("debug");
    reveal_strlit("multiple");
    reveal_strlit("seq_switch");
    reveal_strlit("clock_div");
    reveal_strlit("divider");
    reveal_strlit("sample_hold");
    reveal_strlit("sh");
}

} // verus!

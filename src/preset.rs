use vstd::prelude::*;
use vstd::string::*;

use crate::fry::{deepfry, DeepfryAlgorithm};
use crate::image_buf::{pixel_samples, rgb_dimensions, rgb_samples, RgbBuffer};
use crate::mode::{mode_named, ChangeMode};

verus! {

/// How `{:?}` writes a string: in double quotes, with quotes, backslashes
/// and characters that are not printable escaped.
pub uninterp spec fn debug_str(s: Seq<char>) -> Seq<char>;

/// Relies on `<str as Debug>::fmt` (through `format!("{:?}")`), whose output
/// depends on the characters of the string alone.
#[verifier::external_body]
fn debug_quoted(s: &String) -> (r: String)
    ensures
        r@ == debug_str(s@),
{
    format!("{:?}", s)
}

/// A configuration for an algorithm, as one entry of a preset.
#[derive(Debug, Clone)]
pub struct AlgorithmConfig {
    pub algorithm: String,
    pub change_mode: Option<String>,
    pub red: Option<u32>,
    pub green: Option<u32>,
    pub blue: Option<u32>,
}

/// A parameter that was left out counts as 0.
pub open spec fn param_or_zero(p: Option<u32>) -> u32 {
    match p {
        Some(v) => v,
        None => 0,
    }
}

impl AlgorithmConfig {
    /// What the entry resolves to: an algorithm, or the message that says
    /// why it is refused.
    pub open spec fn spec_algo(self) -> Result<DeepfryAlgorithm, Seq<char>> {
        if self.algorithm@ != "BitChange"@ {
            Err("invalid algorithm: "@ + self.algorithm@)
        } else {
            match self.change_mode {
                None => Err("bit changing mode is not set"@),
                Some(name) => match mode_named(name@) {
                    Some(mode) => Ok(
                        DeepfryAlgorithm::BitChange(
                            mode,
                            param_or_zero(self.red),
                            param_or_zero(self.green),
                            param_or_zero(self.blue),
                        ),
                    ),
                    None => Err("invalid bit changing mode: Some("@ + debug_str(name@) + ")"@),
                },
            }
        }
    }

    /// Resolves the entry into an algorithm.
    pub fn algo(self) -> (r: Result<DeepfryAlgorithm, String>)
        ensures
            r is Ok <==> self.spec_algo() is Ok,
            r is Ok ==> r->Ok_0 == self.spec_algo()->Ok_0,
            r is Err ==> r->Err_0@ == self.spec_algo()->Err_0,
    {
        self.resolve()
    }

    /// Resolves the entry into an algorithm, leaving it in place.
    pub fn resolve(&self) -> (r: Result<DeepfryAlgorithm, String>)
        ensures
            r is Ok <==> self.spec_algo() is Ok,
            r is Ok ==> r->Ok_0 == self.spec_algo()->Ok_0,
            r is Err ==> r->Err_0@ == self.spec_algo()->Err_0,
    {
        let family = String::from_str("BitChange");
        if self.algorithm != family {
            let mut message = String::from_str("invalid algorithm: ");
            message.append(self.algorithm.as_str());
            return Err(message);
        }
        match &self.change_mode {
            None => Err(String::from_str("bit changing mode is not set")),
            Some(name) => match ChangeMode::from_name(name) {
                Some(mode) => {
                    let r = match self.red {
                        Some(v) => v,
                        None => 0,
                    };
                    let g = match self.green {
                        Some(v) => v,
                        None => 0,
                    };
                    let b = match self.blue {
                        Some(v) => v,
                        None => 0,
                    };
                    Ok(DeepfryAlgorithm::BitChange(mode, r, g, b))
                },
                None => {
                    let mut message = String::from_str("invalid bit changing mode: Some(");
                    let quoted = debug_quoted(name);
                    message.append(quoted.as_str());
                    message.append(")");
                    Err(message)
                },
            },
        }
    }
}

/// A preset for deepfrying images using several algorithms and configs
/// without running multiple commands.
#[derive(Debug, Clone)]
pub struct Preset {
    pub algorithms: Vec<AlgorithmConfig>,
}

impl Preset {
    /// Whether every entry resolves.
    pub open spec fn spec_valid(self) -> bool {
        forall|i: int| 0 <= i < self.algorithms@.len() ==> (#[trigger] self.algorithms@[i].spec_algo()) is Ok
    }

    /// The algorithms of a valid preset, in order.
    pub open spec fn spec_algos(self) -> Seq<DeepfryAlgorithm> {
        Seq::new(self.algorithms@.len(), |i: int| self.algorithms@[i].spec_algo()->Ok_0)
    }

    /// The index of the first entry that does not resolve, for an invalid preset.
    pub open spec fn spec_first_invalid(self) -> int {
        choose|k: int|
            0 <= k < self.algorithms@.len() && (#[trigger] self.algorithms@[k].spec_algo()) is Err
                && forall|j: int| 0 <= j < k ==> (#[trigger] self.algorithms@[j].spec_algo()) is Ok
    }

    /// Resolves every entry, in order; the first entry that does not resolve
    /// gives the error.
    pub fn algos(&self) -> (r: Result<Vec<DeepfryAlgorithm>, String>)
        ensures
            r is Ok <==> self.spec_valid(),
            r is Ok ==> r->Ok_0@ == self.spec_algos(),
            r is Err ==> r->Err_0@ == self.algorithms@[self.spec_first_invalid()].spec_algo()->Err_0,
    {
        let mut out: Vec<DeepfryAlgorithm> = Vec::new();
        let mut i: usize = 0;
        while i < self.algorithms.len()
            invariant
                i <= self.algorithms@.len(),
                out@.len() == i,
                forall|j: int| 0 <= j < i ==> (#[trigger] self.algorithms@[j].spec_algo()) is Ok,
                forall|j: int| 0 <= j < i ==> out@[j] == self.algorithms@[j].spec_algo()->Ok_0,
            decreases self.algorithms@.len() - i,
        {
            match self.algorithms[i].resolve() {
                Ok(algo) => out.push(algo),
                Err(e) => {
                    proof {
                        let k = i as int;
                        assert(0 <= k < self.algorithms@.len() && self.algorithms@[k].spec_algo() is Err
                            && forall|j: int| 0 <= j < k ==> (#[trigger] self.algorithms@[j].spec_algo()) is Ok);
                        let f = self.spec_first_invalid();
                        if f < k {
                            assert(self.algorithms@[f].spec_algo() is Ok);
                        } else if k < f {
                            assert(self.algorithms@[k].spec_algo() is Ok);
                        }
                    }
                    return Err(e);
                },
            }
            i = i + 1;
        }
        assert(out@ =~= self.spec_algos());
        Ok(out)
    }
}

/// The samples after a pass of each algorithm in turn, each over the first
/// `count` samples.
pub open spec fn spec_fry_all(samples: Seq<u8>, count: int, algos: Seq<DeepfryAlgorithm>) -> Seq<u8>
    decreases algos.len(),
{
    if algos.len() == 0 {
        samples
    } else {
        algos.last().spec_fry(spec_fry_all(samples, count, algos.drop_last()), count)
    }
}

/// Deepfries an image with every algorithm of a preset, in order. The whole
/// preset is resolved first: where an entry does not resolve, the image is
/// left untouched and the entry's error is returned.
pub fn deepfry_preset(image: &mut RgbBuffer, preset: &Preset) -> (r: Result<(), String>)
    ensures
        r is Ok <==> preset.spec_valid(),
        r is Err ==> *final(image) == *old(image),
        r is Err ==> r->Err_0@ == preset.algorithms@[preset.spec_first_invalid()].spec_algo()->Err_0,
        r is Ok ==> rgb_dimensions(*final(image)) == rgb_dimensions(*old(image)),
        r is Ok ==> rgb_samples(*final(image)) == spec_fry_all(
            rgb_samples(*old(image)),
            pixel_samples(rgb_dimensions(*old(image))),
            preset.spec_algos(),
        ),
{
    let algos = match preset.algos() {
        Ok(algos) => algos,
        Err(e) => {
            return Err(e);
        },
    };
    let ghost original = rgb_samples(*image);
    let ghost dims = rgb_dimensions(*image);
    let mut i: usize = 0;
    while i < algos.len()
        invariant
            i <= algos@.len(),
            algos@ == preset.spec_algos(),
            rgb_dimensions(*image) == dims,
            rgb_samples(*image) == spec_fry_all(original, pixel_samples(dims), algos@.take(i as int)),
        decreases algos@.len() - i,
    {
        let _ = deepfry(image, algos[i]);
        assert(algos@.take(i + 1).drop_last() =~= algos@.take(i as int));
        i = i + 1;
    }
    assert(algos@.take(algos@.len() as int) =~= algos@);
    Ok(())
}

} // verus!

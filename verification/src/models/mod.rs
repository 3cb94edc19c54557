//! The model asset: whether the unpacked model on disk is the one that is
//! shipped, and what to do where it is not.

pub mod flate;
pub mod transformers;

use vstd::prelude::*;

verus! {

/// The digest of the model that is shipped, in hexadecimal.
pub const MODEL_MD5: &'static str = "5d228912c417f6abf7732710314ddeed";

/// What is done about the model file before the model is loaded.
#[derive(Clone, Copy, Debug, PartialEq, Eq, Structural)]
pub enum ModelPlan {
    /// The file is there and is the model that is shipped.
    Keep,
    /// There is no file: the parts are unpacked into one.
    Unpack,
    /// The file is there, but is not the model that is shipped or could
    /// not be read: it is removed and the parts are unpacked anew.
    ReplaceAndUnpack,
}

/// The plan for a model file, from whether it exists and, if so, its
/// digest; `None` stands for a file that could not be read.
pub open spec fn plan_for(exists: bool, digest: Option<Seq<char>>) -> ModelPlan {
    if !exists {
        ModelPlan::Unpack
    } else if digest == Some(MODEL_MD5@) {
        ModelPlan::Keep
    } else {
        ModelPlan::ReplaceAndUnpack
    }
}

/// Whether a digest is that of the model that is shipped.
pub fn is_model_digest(digest: &str) -> (yes: bool)
    ensures
        yes == (digest@ == MODEL_MD5@),
{
    String::from_str(digest) == String::from_str(MODEL_MD5)
}

/// Decides what is done about the model file.
pub fn plan_model(exists: bool, digest: Option<String>) -> (plan: ModelPlan)
    ensures
        plan == plan_for(
            exists,
            match digest {
                Some(d) => Some(d@),
                None => None,
            },
        ),
{
    if !exists {
        ModelPlan::Unpack
    } else {
        match digest {
            Some(d) => if is_model_digest(d.as_str()) {
                ModelPlan::Keep
            } else {
                ModelPlan::ReplaceAndUnpack
            },
            None => ModelPlan::ReplaceAndUnpack,
        }
    }
}

} // verus!

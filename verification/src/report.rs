//! The framing of errors: every failure of a stage is reported together with
//! the stage and the variant it befell.

use vstd::prelude::*;
use vstd::string::*;

verus! {

/// One of the three stages a variant goes through.
#[derive(Clone, Copy, Debug, PartialEq, Eq, Structural)]
pub enum Stage {
    Construct,
    Prepare,
    Launch,
}

/// What a stage does to a variant, in one word.
pub open spec fn stage_text(stage: Stage) -> Seq<char> {
    match stage {
        Stage::Construct => "constructing"@,
        Stage::Prepare => "preparing"@,
        Stage::Launch => "launching"@,
    }
}

/// The report of `cause`, framed by the stage and the variant concerned.
pub open spec fn framed(stage: Stage, variant: Seq<char>, cause: Seq<char>) -> Seq<char> {
    "while "@ + stage_text(stage) + " variant "@ + variant + ": "@ + cause
}

/// The report of `cause`, framed by the stage and the variant concerned.
pub fn frame(stage: Stage, variant: &String, cause: &String) -> (text: String)
    ensures
        text@ == framed(stage, variant@, cause@),
{
    let text = String::from_str("while ");
    let text = match stage {
        Stage::Construct => text.concat("constructing"),
        Stage::Prepare => text.concat("preparing"),
        Stage::Launch => text.concat("launching"),
    };
    let text = text.concat(" variant ");
    let text = text.concat(variant.as_str());
    let text = text.concat(": ");
    text.concat(cause.as_str())
}

} // verus!

use vstd::prelude::*;

verus! {

/// How the code of a snippet came in.
#[derive(Debug, Clone, Copy, PartialEq, Eq, Structural)]
pub enum InputSource {
    Upload,
    Paste,
    Type,
}

pub open spec fn description_of(s: InputSource) -> Seq<char> {
    match s {
        InputSource::Upload => "Uploaded from image"@,
        InputSource::Paste => "Pasted from clipboard"@,
        InputSource::Type => "Typed directly"@,
    }
}

impl InputSource {
    /// A human-readable description of the source.
    pub fn description(&self) -> (r: &'static str)
        ensures
            r@ == description_of(*self),
    {
        match self {
            InputSource::Upload => "Uploaded from image",
            InputSource::Paste => "Pasted from clipboard",
            InputSource::Type => "Typed directly",
        }
    }
}

} // verus!

use vstd::prelude::*;

verus! {

/// The axis along which a widget's parts are laid out, and so which arrow
/// keys move focus between them.
#[derive(Debug, Clone, Copy, PartialEq, Eq, Structural)]
pub enum Orientation {
    Vertical,
    Horizontal,
}

impl Orientation {
    pub open spec fn spec_name(self) -> Seq<char> {
        match self {
            Orientation::Vertical => "vertical"@,
            Orientation::Horizontal => "horizontal"@,
        }
    }

    pub fn is_vertical(&self) -> (r: bool)
        ensures
            r == (*self is Vertical),
    {
        matches!(self, Orientation::Vertical)
    }

    pub fn is_horizontal(&self) -> (r: bool)
        ensures
            r == (*self is Horizontal),
    {
        matches!(self, Orientation::Horizontal)
    }

    /// The value of the `data-orientation` attribute.
    pub fn as_str(&self) -> (r: &'static str)
        ensures
            r@ == self.spec_name(),
    {
        match self {
            Orientation::Vertical => "vertical",
            Orientation::Horizontal => "horizontal",
        }
    }
}

} // verus!

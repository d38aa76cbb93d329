use vstd::prelude::*;

verus! {

/// A vertex format.
pub trait Format {
    /// Describes the format.
    fn info() -> FormatInfo;
}

/// Information about a vertex format: the size in bytes of one
/// component, how many components a vertex has, and the graphics API's
/// numeric code for the component type.
#[derive(Copy, Clone, Debug, PartialEq, Eq, Structural)]
pub struct FormatInfo {
    pub component_size: u16,
    pub component_count: u16,
    pub component_type: u32,
}

impl FormatInfo {
    /// A format describing nothing.
    pub fn empty() -> (r: Self)
        ensures
            r.component_size == 0,
            r.component_count == 0,
            r.component_type == 0,
    {
        FormatInfo { component_size: 0, component_count: 0, component_type: 0 }
    }

    /// The total number of bytes one vertex occupies.
    pub fn total_size(self) -> (r: usize)
        requires
            self.component_size * self.component_count <= usize::MAX,
        ensures
            r == self.component_size * self.component_count,
    {
        (self.component_size as usize) * (self.component_count as usize)
    }
}

} // verus!

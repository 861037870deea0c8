use vstd::prelude::*;

verus! {

/// What a rubato profile holds: how far the tempo may be compressed
/// (faster) and stretched (slower), how quickly it may change, and the
/// profile's name.
pub struct ProfileView<B> {
    pub max_compress: B,
    pub max_stretch: B,
    pub transition_rate: B,
    pub name: Seq<char>,
}

/// The boundaries of permissible timing flexibility for an agent.
#[derive(Debug, Clone, PartialEq)]
pub struct RubatoProfile<B> {
    max_compress: B,
    max_stretch: B,
    transition_rate: B,
    name: String,
}

impl<B: Copy> RubatoProfile<B> {
    /// The contents of the profile.
    pub closed spec fn view(&self) -> ProfileView<B> {
        ProfileView {
            max_compress: self.max_compress,
            max_stretch: self.max_stretch,
            transition_rate: self.transition_rate,
            name: self.name@,
        }
    }

    /// A profile with the given name and bounds, taken as they are.
    pub fn from_parts(name: String, max_compress: B, max_stretch: B, transition_rate: B) -> (p: Self)
        ensures
            p@.name == name@,
            p@.max_compress == max_compress,
            p@.max_stretch == max_stretch,
            p@.transition_rate == transition_rate,
    {
        RubatoProfile { max_compress, max_stretch, transition_rate, name }
    }

    /// Name of the profile.
    pub fn name(&self) -> (r: &str)
        ensures
            r@ == self@.name,
    {
        self.name.as_str()
    }

    /// Largest fraction by which the tempo may increase.
    pub fn max_compress(&self) -> (r: B)
        ensures
            r == self@.max_compress,
    {
        self.max_compress
    }

    /// Largest fraction by which the tempo may decrease.
    pub fn max_stretch(&self) -> (r: B)
        ensures
            r == self@.max_stretch,
    {
        self.max_stretch
    }

    /// How quickly the tempo may change, per second.
    pub fn transition_rate(&self) -> (r: B)
        ensures
            r == self@.transition_rate,
    {
        self.transition_rate
    }
}

} // verus!

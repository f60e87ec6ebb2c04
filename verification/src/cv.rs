//! Camera and display types shared by the light-position tools.

use vstd::prelude::*;

verus! {

/// A camera failure.
#[derive(Debug, Clone, Copy, PartialEq, Eq, Structural)]
pub enum CameraError {
    InitializeError,
    CaptureError,
}

impl CameraError {
    /// The message every camera error shows: "CameraError".
    pub fn to_text(&self) -> (s: String)
        ensures
            s@ == "CameraError"@,
    {
        String::from_str("CameraError")
    }
}

/// A preview window, by name.
#[derive(Debug)]
pub struct Display {
    pub window_name: String,
}

impl Display {
    /// The window of the given name (the window itself is opened by the
    /// caller).
    pub fn named(window_name: &str) -> (d: Display)
        ensures
            d.window_name@ == window_name@,
    {
        Display { window_name: String::from_str(window_name) }
    }
}


/// Which of the two pictures of bit `i` is used when locating light
/// `index` from bit pictures: the positive one exactly when `(1 >> i) &
/// index` is not zero, that is only for the lowest bit of an odd index.
pub fn uses_positive_image(index: usize, i: usize) -> (b: bool)
    requires
        i < usize::BITS,
    ensures
        b == (i == 0 && index % 2 == 1),
{
    let mask: usize = 1usize >> i;
    let b = mask & index != 0;
    assert(b == (i == 0 && index % 2 == 1)) by (bit_vector)
        requires
            i < usize::BITS,
            mask == 1usize >> i,
            b == (mask & index != 0),
    ;
    b
}

} // verus!

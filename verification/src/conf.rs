use vstd::prelude::*;

verus! {

/// Window options that are not about its size.
pub struct WindowSetup {
    pub title: String,
    pub vsync: bool,
    pub icon: String,
    pub srgb: bool,
}

impl WindowSetup {
    pub fn default() -> (r: Self)
        ensures
            r.title@ == "Empty Title"@,
            r.vsync == false,
            r.icon@ == ""@,
            r.srgb == true,
    {
        Self {
            title: "Empty Title".to_string(),
            vsync: false,
            icon: "".to_string(),
            srgb: true,
        }
    }
}

} // verus!

use vstd::prelude::*;

verus! {

/// Conversion of a loosely typed channel container into an RGB triple.
pub trait ToRgb {
    /// Whether the container can be read as one RGB triple.
    spec fn rgb_convertible(&self) -> bool;

    /// The triple it denotes, when convertible.
    spec fn rgb_value(&self) -> [u8; 3];

    fn to_rgb(&self) -> (r: Result<[u8; 3], &'static str>)
        ensures
            self.rgb_convertible() ==> r == Ok::<[u8; 3], &'static str>(self.rgb_value()),
            !self.rgb_convertible() ==> (r matches Err(m) && m@ == "Vector must have size of 3"@),
    ;
}

impl ToRgb for Vec<u8> {
    open spec fn rgb_convertible(&self) -> bool {
        self@.len() == 3
    }

    open spec fn rgb_value(&self) -> [u8; 3] {
        [self@[0], self@[1], self@[2]]
    }

    fn to_rgb(&self) -> (r: Result<[u8; 3], &'static str>) {
        if self.len() != 3 {
            return Err("Vector must have size of 3");
        }
        let out = [self[0], self[1], self[2]];
        proof {
            assert(out =~= self.rgb_value());
        }
        Ok(out)
    }
}

} // verus!

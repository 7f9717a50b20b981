use vstd::prelude::*;

verus! {

/// The twelve meshes of a skin: six body parts, each with an inner and an outer shell.
#[derive(PartialEq, Eq, Structural, Hash, PartialOrd, Ord, Copy, Clone, Debug)]
pub enum BodyPart {
    Head,
    Torso,
    RightArm,
    LeftArm,
    RightLeg,
    LeftLeg,
    HeadOuter,
    TorsoOuter,
    RightArmOuter,
    LeftArmOuter,
    RightLegOuter,
    LeftLegOuter,
}

/// Number of body parts.
pub const BODY_PART_COUNT: usize = 12;

/// The six faces of a cuboid, in the order in which cells are laid out.
#[derive(PartialEq, Eq, Structural, Hash, PartialOrd, Ord, Copy, Clone, Debug)]
pub enum CubeSide {
    Front,
    Left,
    Back,
    Right,
    Top,
    Bottom,
}

/// Number of cube sides.
pub const SIDE_COUNT: usize = 6;

/// Arm width variant: classic arms are four texels wide, slim arms three.
#[derive(PartialEq, Eq, Structural, Copy, Clone, Debug)]
pub enum ModelType {
    Classic,
    Slim,
}

/// Which side of the body a limb is on.
#[derive(PartialEq, Eq, Structural, Copy, Clone, Debug)]
pub enum Side {
    Right,
    Left,
}

/// Kind of geometry a mesh object draws: shaded cells or grid lines.
#[derive(PartialEq, Eq, Structural, Copy, Clone, Debug)]
pub enum ModelObjectType {
    Model,
    Grid,
}

/// Answer of the dialog that asks which arm variant a newly opened skin uses.
#[derive(PartialEq, Eq, Structural, Copy, Clone, Debug)]
pub enum SkinDialogResponse {
    Slim,
    Classic,
    Discard,
}

impl SkinDialogResponse {
    /// The variant chosen, or `None` when the dialog was discarded.
    pub fn model_type(self) -> (r: Option<ModelType>)
        ensures
            r == match self {
                SkinDialogResponse::Slim => Some(ModelType::Slim),
                SkinDialogResponse::Classic => Some(ModelType::Classic),
                SkinDialogResponse::Discard => None,
            },
    {
        match self {
            SkinDialogResponse::Slim => Some(ModelType::Slim),
            SkinDialogResponse::Classic => Some(ModelType::Classic),
            SkinDialogResponse::Discard => None,
        }
    }
}

impl BodyPart {
    pub open spec fn spec_index(self) -> nat {
        match self {
            BodyPart::Head => 0,
            BodyPart::Torso => 1,
            BodyPart::RightArm => 2,
            BodyPart::LeftArm => 3,
            BodyPart::RightLeg => 4,
            BodyPart::LeftLeg => 5,
            BodyPart::HeadOuter => 6,
            BodyPart::TorsoOuter => 7,
            BodyPart::RightArmOuter => 8,
            BodyPart::LeftArmOuter => 9,
            BodyPart::RightLegOuter => 10,
            BodyPart::LeftLegOuter => 11,
        }
    }

    pub open spec fn from_spec_index(i: int) -> BodyPart {
        if i == 0 {
            BodyPart::Head
        } else if i == 1 {
            BodyPart::Torso
        } else if i == 2 {
            BodyPart::RightArm
        } else if i == 3 {
            BodyPart::LeftArm
        } else if i == 4 {
            BodyPart::RightLeg
        } else if i == 5 {
            BodyPart::LeftLeg
        } else if i == 6 {
            BodyPart::HeadOuter
        } else if i == 7 {
            BodyPart::TorsoOuter
        } else if i == 8 {
            BodyPart::RightArmOuter
        } else if i == 9 {
            BodyPart::LeftArmOuter
        } else if i == 10 {
            BodyPart::RightLegOuter
        } else {
            BodyPart::LeftLegOuter
        }
    }

    /// Position of the part in declaration order, used to index per-part tables.
    pub fn index(self) -> (r: usize)
        ensures
            r == self.spec_index(),
            r < BODY_PART_COUNT,
    {
        match self {
            BodyPart::Head => 0,
            BodyPart::Torso => 1,
            BodyPart::RightArm => 2,
            BodyPart::LeftArm => 3,
            BodyPart::RightLeg => 4,
            BodyPart::LeftLeg => 5,
            BodyPart::HeadOuter => 6,
            BodyPart::TorsoOuter => 7,
            BodyPart::RightArmOuter => 8,
            BodyPart::LeftArmOuter => 9,
            BodyPart::RightLegOuter => 10,
            BodyPart::LeftLegOuter => 11,
        }
    }

    /// The part at a given position in declaration order.
    pub fn from_index(i: usize) -> (r: BodyPart)
        requires
            i < BODY_PART_COUNT,
        ensures
            r == BodyPart::from_spec_index(i as int),
            r.spec_index() == i,
    {
        if i == 0 {
            BodyPart::Head
        } else if i == 1 {
            BodyPart::Torso
        } else if i == 2 {
            BodyPart::RightArm
        } else if i == 3 {
            BodyPart::LeftArm
        } else if i == 4 {
            BodyPart::RightLeg
        } else if i == 5 {
            BodyPart::LeftLeg
        } else if i == 6 {
            BodyPart::HeadOuter
        } else if i == 7 {
            BodyPart::TorsoOuter
        } else if i == 8 {
            BodyPart::RightArmOuter
        } else if i == 9 {
            BodyPart::LeftArmOuter
        } else if i == 10 {
            BodyPart::RightLegOuter
        } else {
            BodyPart::LeftLegOuter
        }
    }

    pub open spec fn spec_is_arm(self) -> bool {
        self == BodyPart::RightArm || self == BodyPart::LeftArm || self == BodyPart::RightArmOuter
            || self == BodyPart::LeftArmOuter
    }

    pub open spec fn spec_side(self) -> Side {
        match self {
            BodyPart::LeftArm | BodyPart::LeftArmOuter | BodyPart::LeftLeg
            | BodyPart::LeftLegOuter => Side::Left,
            _ => Side::Right,
        }
    }
}

impl CubeSide {
    pub open spec fn spec_index(self) -> nat {
        match self {
            CubeSide::Front => 0,
            CubeSide::Left => 1,
            CubeSide::Back => 2,
            CubeSide::Right => 3,
            CubeSide::Top => 4,
            CubeSide::Bottom => 5,
        }
    }

    pub open spec fn from_spec_index(i: int) -> CubeSide {
        if i == 0 {
            CubeSide::Front
        } else if i == 1 {
            CubeSide::Left
        } else if i == 2 {
            CubeSide::Back
        } else if i == 3 {
            CubeSide::Right
        } else if i == 4 {
            CubeSide::Top
        } else {
            CubeSide::Bottom
        }
    }

    /// Position of the side in layout order.
    pub fn index(self) -> (r: usize)
        ensures
            r == self.spec_index(),
            r < SIDE_COUNT,
    {
        match self {
            CubeSide::Front => 0,
            CubeSide::Left => 1,
            CubeSide::Back => 2,
            CubeSide::Right => 3,
            CubeSide::Top => 4,
            CubeSide::Bottom => 5,
        }
    }

    /// The side at a given position in layout order.
    pub fn from_index(i: usize) -> (r: CubeSide)
        requires
            i < SIDE_COUNT,
        ensures
            r == CubeSide::from_spec_index(i as int),
            r.spec_index() == i,
    {
        if i == 0 {
            CubeSide::Front
        } else if i == 1 {
            CubeSide::Left
        } else if i == 2 {
            CubeSide::Back
        } else if i == 3 {
            CubeSide::Right
        } else if i == 4 {
            CubeSide::Top
        } else {
            CubeSide::Bottom
        }
    }
}

} // verus!

verus! {

/// The arm variant of a skin file. Every skin is taken as classic: the file does not
/// say, and the user is asked when it matters.
pub fn guess_model_type(bytes: &[u8]) -> (r: Result<ModelType, ()>)
    ensures
        r == Ok::<ModelType, ()>(ModelType::Classic),
{
    Ok(ModelType::Classic)
}

} // verus!

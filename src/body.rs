use vstd::prelude::*;

verus! {

/// What a body part is and does.
#[derive(PartialEq, Eq, Structural, Copy, Clone, Debug)]
pub enum BodyPartTag {
    /// The main part that everything attaches to.
    Core,
    /// Extends off the body and can be severed.
    Limb,
    /// Can wield items.
    Grasping,
    /// Used for the main weapon.
    Dominant,
    /// Helps the creature move.
    Mobility,
    /// Destroying it kills the creature at once.
    ThoughtCenter,
}

/// What kind of armor a body part can wear.
#[derive(PartialEq, Eq, Structural, Copy, Clone, Debug)]
pub enum ArmorTag {
    Core,
    Back,
    Head,
    Arm,
    Leg,
    Hand,
    Foot,
    Tail,
    GenericLimb,
    /// How many pieces of jewelry the part can wear.
    Jewelry(i32),
}

/// A part of a body, with the parts attached to it.
#[derive(Debug)]
pub struct BodyPart {
    pub name: String,
    pub children: Vec<BodyPart>,
    pub tags: Vec<BodyPartTag>,
    pub armor_tags: Vec<ArmorTag>,
    pub equipped_armor: Vec<usize>,
}

impl BodyPart {
    /// A part named `name` with the given tags, nothing attached and nothing worn.
    pub fn new(name: &str, tags: Vec<BodyPartTag>, armor_tags: Vec<ArmorTag>) -> (p: BodyPart)
        ensures
            p.name@ == name@,
            p.children@.len() == 0,
            p.tags@ == tags@,
            p.armor_tags@ == armor_tags@,
            p.equipped_armor@.len() == 0,
    {
        BodyPart {
            name: name.to_owned(),
            children: Vec::new(),
            tags,
            armor_tags,
            equipped_armor: Vec::new(),
        }
    }

    /// Attaches `body_part` after the parts already attached.
    pub fn add_child(&mut self, body_part: BodyPart)
        ensures
            final(self).children@ == old(self).children@.push(body_part),
            final(self).name@ == old(self).name@,
            final(self).tags@ == old(self).tags@,
            final(self).armor_tags@ == old(self).armor_tags@,
            final(self).equipped_armor@ == old(self).equipped_armor@,
    {
        self.children.push(body_part);
    }
}

/// The body of a creature, which it leaves behind as a corpse when it falls.
#[derive(Debug)]
pub struct Body {
    pub core: BodyPart,
}

impl Body {
    /// A body that is only a core.
    pub fn new() -> (b: Body)
        ensures
            b.core.name@ == "Core"@,
            b.core.children@.len() == 0,
            b.core.tags@ == seq![BodyPartTag::Core],
            b.core.armor_tags@ == seq![ArmorTag::Core],
    {
        Body { core: BodyPart::new("Core", vec![BodyPartTag::Core], vec![ArmorTag::Core]) }
    }

    /// A human shape: a core carrying a head, two arms ending in hands and two legs
    /// ending in feet, the left hand being the dominant one.
    pub fn make_humanoid() -> (b: Body)
        ensures
            b.core.name@ == "Core"@,
            b.core.tags@ == seq![BodyPartTag::Core],
            b.core.children@.len() == 5,
            b.core.children@[0].name@ == "Head"@,
            b.core.children@[0].tags@ == seq![BodyPartTag::ThoughtCenter, BodyPartTag::Limb],
            b.core.children@[0].children@.len() == 0,
            b.core.children@[1].name@ == "Left Arm"@,
            b.core.children@[1].children@.len() == 1,
            b.core.children@[1].children@[0].name@ == "Left Hand"@,
            b.core.children@[1].children@[0].tags@ == seq![
                BodyPartTag::Limb,
                BodyPartTag::Grasping,
                BodyPartTag::Dominant,
            ],
            b.core.children@[2].name@ == "Left Leg"@,
            b.core.children@[2].children@.len() == 1,
            b.core.children@[2].children@[0].name@ == "Left Foot"@,
            b.core.children@[3].name@ == "Right Arm"@,
            b.core.children@[3].children@.len() == 1,
            b.core.children@[3].children@[0].name@ == "Right Hand"@,
            b.core.children@[3].children@[0].tags@ == seq![BodyPartTag::Limb, BodyPartTag::Grasping],
            b.core.children@[4].name@ == "Right Leg"@,
            b.core.children@[4].children@.len() == 1,
            b.core.children@[4].children@[0].name@ == "Right Foot"@,
    {
        let mut core = BodyPart::new("Core", vec![BodyPartTag::Core], vec![ArmorTag::Core]);
        let head = BodyPart::new(
            "Head",
            vec![BodyPartTag::ThoughtCenter, BodyPartTag::Limb],
            vec![ArmorTag::Head, ArmorTag::Jewelry(3)],
        );
        let mut left_arm = BodyPart::new("Left Arm", vec![BodyPartTag::Limb], vec![ArmorTag::Arm]);
        let mut right_arm = BodyPart::new("Right Arm", vec![BodyPartTag::Limb], vec![ArmorTag::Arm]);
        let left_hand = BodyPart::new(
            "Left Hand",
            vec![BodyPartTag::Limb, BodyPartTag::Grasping, BodyPartTag::Dominant],
            vec![ArmorTag::Hand, ArmorTag::Jewelry(5)],
        );
        let right_hand = BodyPart::new(
            "Right Hand",
            vec![BodyPartTag::Limb, BodyPartTag::Grasping],
            vec![ArmorTag::Head, ArmorTag::Jewelry(5)],
        );
        let mut left_leg = BodyPart::new(
            "Left Leg",
            vec![BodyPartTag::Limb, BodyPartTag::Mobility],
            vec![ArmorTag::Head],
        );
        let mut right_leg = BodyPart::new(
            "Right Leg",
            vec![BodyPartTag::Limb, BodyPartTag::Mobility],
            vec![ArmorTag::Head],
        );
        let left_foot = BodyPart::new("Left Foot", vec![BodyPartTag::Limb], vec![ArmorTag::Head]);
        let right_foot = BodyPart::new("Right Foot", vec![BodyPartTag::Limb], vec![ArmorTag::Head]);
        left_arm.add_child(left_hand);
        left_leg.add_child(left_foot);
        right_arm.add_child(right_hand);
        right_leg.add_child(right_foot);
        core.add_child(head);
        core.add_child(left_arm);
        core.add_child(left_leg);
        core.add_child(right_arm);
        core.add_child(right_leg);
        Body { core }
    }
}

} // verus!

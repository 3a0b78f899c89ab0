//! The kinds of named game objects that script may refer to.

use vstd::prelude::*;

verus! {

#[derive(Copy, Debug, PartialEq, Eq, Structural)]
pub enum Item {
    CharacterInteraction,
    Event,
    File,
    GameConcept,
    Localization,
    Province,
    ScriptedEffect,
    ScriptedTrigger,
    Skill,
    Sound,
    Title,
    Trait,
}

impl Clone for Item {
    fn clone(&self) -> (r: Self)
        ensures
            r == *self,
    {
        *self
    }
}

impl Item {
    /// How reports name the kind.
    pub open spec fn spec_name(self) -> Seq<char> {
        match self {
            Item::CharacterInteraction => "character interaction"@,
            Item::Event => "event"@,
            Item::File => "file"@,
            Item::GameConcept => "game concept"@,
            Item::Localization => "localization"@,
            Item::Province => "province"@,
            Item::ScriptedEffect => "scripted effect"@,
            Item::ScriptedTrigger => "scripted trigger"@,
            Item::Skill => "skill"@,
            Item::Sound => "sound"@,
            Item::Title => "title"@,
            Item::Trait => "trait"@,
        }
    }

    /// How reports name the kind.
    pub fn name(self) -> (r: &'static str)
        ensures
            r@ == self.spec_name(),
    {
        match self {
            Item::CharacterInteraction => "character interaction",
            Item::Event => "event",
            Item::File => "file",
            Item::GameConcept => "game concept",
            Item::Localization => "localization",
            Item::Province => "province",
            Item::ScriptedEffect => "scripted effect",
            Item::ScriptedTrigger => "scripted trigger",
            Item::Skill => "skill",
            Item::Sound => "sound",
            Item::Title => "title",
            Item::Trait => "trait",
        }
    }
}

} // verus!

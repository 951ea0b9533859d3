use vstd::prelude::*;

verus! {

/// How the description of an event of a given type is stored: a fixed text, one of a few
/// fixed texts, a fixed prefix or suffix around a stored part, or stored whole.
pub enum EventDescription {
    Constant(&'static str),
    ConstantVariant(Vec<&'static str>),
    Prefix(&'static str),
    Suffix(&'static str),
    Variable,
}

/// The texts of an `EventDescription`.
pub enum DescriptionView {
    Constant(Seq<char>),
    ConstantVariant(Seq<Seq<char>>),
    Prefix(Seq<char>),
    Suffix(Seq<char>),
    Variable,
}

impl View for EventDescription {
    type V = DescriptionView;

    open spec fn view(&self) -> DescriptionView {
        match self {
            EventDescription::Constant(s) => DescriptionView::Constant(s@),
            EventDescription::ConstantVariant(v) => DescriptionView::ConstantVariant(v@.map_values(|s: &'static str| s@)),
            EventDescription::Prefix(s) => DescriptionView::Prefix(s@),
            EventDescription::Suffix(s) => DescriptionView::Suffix(s@),
            EventDescription::Variable => DescriptionView::Variable,
        }
    }
}

/// The description scheme of each event type.
#[verifier::opaque]
pub open spec fn description_of_type(t: i16) -> DescriptionView {
    if t == 1 {
        DescriptionView::Constant("Play ball!"@)
    } else if t == 25 {
        DescriptionView::Constant("The Electricity zaps a strike away!"@)
    } else if t == 73 {
        DescriptionView::ConstantVariant(seq![
            "A desolate peanutty wind blows."@,
            "A solitary peanut rolls onto the field. Nobody cares."@,
            "Peanut fragments rustle on the infield."@,
            "The faint crunch of a shell underfoot"@,
            "The sour smell of rancid peanuts on the wind"@,
        ])
    } else if t == 77 {
        DescriptionView::Constant("The Event Horizon awaits."@)
    } else if t == 21 {
        DescriptionView::Suffix("apply Home Field advantage!"@)
    } else if t == 33 {
        DescriptionView::Constant("The Birds circle ... but they don't find what they're looking for."@)
    } else if t == 45 {
        DescriptionView::Suffix(" swallowed a stray peanut and had a Superallergic reaction!"@)
    } else if t == 47 {
        DescriptionView::Suffix(" swallowed a stray peanut and had an allergic reaction!"@)
    } else if t == 62 {
        DescriptionView::Prefix("A surge of Immateria rushes up from Under!\nBaserunners are swept from play!"@)
    } else if t == 65 {
        DescriptionView::Suffix("enters the Secret Base..."@)
    } else if t == 69 {
        DescriptionView::Prefix("The Echo Chamber traps a wave.\n"@)
    } else if t == 72 {
        DescriptionView::Prefix("The Peanut Mister activates!\n"@)
    } else if t == 76 {
        DescriptionView::Prefix("The Event Horizon activates!\n"@)
    } else if t == 78 {
        DescriptionView::Constant("The Solar Panels are angled toward Sun 2."@)
    } else if t == 79 {
        DescriptionView::Prefix("The Solar Panels absorb Sun 2's energy!\n"@)
    } else if t == 88 {
        DescriptionView::Constant("The Atlantis Georgias go Undersea. They're now Overperforming!"@)
    } else if t == 125 {
        DescriptionView::Suffix("entered the Hall of Flame."@)
    } else if t == 131 {
        DescriptionView::Suffix("had their lineup shuffled."@)
    } else if t == 137 {
        DescriptionView::Suffix("has been hatched from the field of eggs."@)
    } else if t == 189 {
        DescriptionView::Prefix("The Community Chest Opens!\n"@)
    } else if t == 192 {
        DescriptionView::Prefix("Hotel Motel\nInning "@)
    } else if t == 193 {
        DescriptionView::Prefix("Prize Match!\nThe Winner gets "@)
    } else if t == 195 {
        DescriptionView::Prefix("Smithy beckons to "@)
    } else if t == 206 {
        DescriptionView::Prefix("Hype built in "@)
    } else if t == 216 {
        DescriptionView::Constant("Game Over."@)
    } else if t == 217 {
        DescriptionView::ConstantVariant(seq!["Sun(Sun)'s Pressure built..."@, "Sun(Sun) Recharged."@])
    } else if t == 228 {
        DescriptionView::Prefix("Home Team Shutout.\nIncoming Voicemail...\n"@)
    } else {
        DescriptionView::Variable
    }
}

impl EventDescription {
    pub fn from_type(t: i16) -> (res: EventDescription)
        ensures
            res@ == description_of_type(t),
    {
        let res = match t {
            1 => EventDescription::Constant("Play ball!"),
            25 => EventDescription::Constant("The Electricity zaps a strike away!"),
            73 => EventDescription::ConstantVariant(vec![
                "A desolate peanutty wind blows.",
                "A solitary peanut rolls onto the field. Nobody cares.",
                "Peanut fragments rustle on the infield.",
                "The faint crunch of a shell underfoot",
                "The sour smell of rancid peanuts on the wind",
            ]),
            77 => EventDescription::Constant("The Event Horizon awaits."),
            21 => EventDescription::Suffix("apply Home Field advantage!"),
            33 => EventDescription::Constant("The Birds circle ... but they don't find what they're looking for."),
            45 => EventDescription::Suffix(" swallowed a stray peanut and had a Superallergic reaction!"),
            47 => EventDescription::Suffix(" swallowed a stray peanut and had an allergic reaction!"),
            62 => EventDescription::Prefix(
                "A surge of Immateria rushes up from Under!\nBaserunners are swept from play!",
            ),
            65 => EventDescription::Suffix("enters the Secret Base..."),
            69 => EventDescription::Prefix("The Echo Chamber traps a wave.\n"),
            72 => EventDescription::Prefix("The Peanut Mister activates!\n"),
            76 => EventDescription::Prefix("The Event Horizon activates!\n"),
            78 => EventDescription::Constant("The Solar Panels are angled toward Sun 2."),
            79 => EventDescription::Prefix("The Solar Panels absorb Sun 2's energy!\n"),
            88 => EventDescription::Constant("The Atlantis Georgias go Undersea. They're now Overperforming!"),
            125 => EventDescription::Suffix("entered the Hall of Flame."),
            131 => EventDescription::Suffix("had their lineup shuffled."),
            137 => EventDescription::Suffix("has been hatched from the field of eggs."),
            189 => EventDescription::Prefix("The Community Chest Opens!\n"),
            192 => EventDescription::Prefix("Hotel Motel\nInning "),
            193 => EventDescription::Prefix("Prize Match!\nThe Winner gets "),
            195 => EventDescription::Prefix("Smithy beckons to "),
            206 => EventDescription::Prefix("Hype built in "),
            216 => EventDescription::Constant("Game Over."),
            217 => EventDescription::ConstantVariant(vec!["Sun(Sun)'s Pressure built...", "Sun(Sun) Recharged."]),
            228 => EventDescription::Prefix("Home Team Shutout.\nIncoming Voicemail...\n"),
            _ => EventDescription::Variable,
        };
        proof {
            reveal(description_of_type);
            if t == 73 || t == 217 {
                if let EventDescription::ConstantVariant(v) = &res {
                    assert(v@.map_values(|s: &'static str| s@) =~= match description_of_type(t) {
                        DescriptionView::ConstantVariant(s) => s,
                        _ => Seq::empty(),
                    });
                }
            }
        }
        res
    }
}

} // verus!

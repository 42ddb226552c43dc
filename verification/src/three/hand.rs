//! Scoring-category catalogue of the 11-tile family: a closed enumeration of
//! the patterns a decomposed hand may satisfy, each with a fixed score
//! weight and a display name.

use vstd::prelude::*;

verus! {

/// Number of categories, the reserved no-point category included.
pub const HANDVARIANT: usize = 25;

/// Cap on the score of one hand, however many categories stack.
pub const HANDMAXSCORE: u16 = 16;

/// The closed catalogue of scoring categories.
#[derive(Clone, Copy, PartialEq, Eq, Structural, Debug)]
pub enum Hand {
    AllChows,
    MoonPung,
    SunPung,
    WindPung,
    AllPungs,
    LittleThreeWinds,
    BigThreeWinds,
    TwoDragons,
    AllSimples,
    OutsideHands,
    TerminalsInAllSets,
    AllTerminalsAndHonors,
    HalfFlush,
    FullFlush,
    AllHonors,
    TwoConcealedPungs,
    ThreeConcealedPungs,
    PureDoubleChow,
    PureTripleChow,
    MixedTripleChow,
    TriplePung,
    PureShiftedPungs,
    ThreePureShiftedPungs,
    AllTerminals,
    NoPoint,
}

impl Hand {
    /// Position in the declaration order; the category's bit position inside
    /// a `HandList`.
    pub open spec fn index_spec(self) -> int {
        match self {
            Hand::AllChows => 0,
            Hand::MoonPung => 1,
            Hand::SunPung => 2,
            Hand::WindPung => 3,
            Hand::AllPungs => 4,
            Hand::LittleThreeWinds => 5,
            Hand::BigThreeWinds => 6,
            Hand::TwoDragons => 7,
            Hand::AllSimples => 8,
            Hand::OutsideHands => 9,
            Hand::TerminalsInAllSets => 10,
            Hand::AllTerminalsAndHonors => 11,
            Hand::HalfFlush => 12,
            Hand::FullFlush => 13,
            Hand::AllHonors => 14,
            Hand::TwoConcealedPungs => 15,
            Hand::ThreeConcealedPungs => 16,
            Hand::PureDoubleChow => 17,
            Hand::PureTripleChow => 18,
            Hand::MixedTripleChow => 19,
            Hand::TriplePung => 20,
            Hand::PureShiftedPungs => 21,
            Hand::ThreePureShiftedPungs => 22,
            Hand::AllTerminals => 23,
            Hand::NoPoint => 24,
        }
    }

    /// The fixed score weight of this category.
    pub open spec fn score_spec(self) -> int {
        match self {
            Hand::AllChows => 0,
            Hand::MoonPung => 2,
            Hand::SunPung => 2,
            Hand::WindPung => 2,
            Hand::AllPungs => 4,
            Hand::LittleThreeWinds => 4,
            Hand::BigThreeWinds => 16,
            Hand::TwoDragons => 2,
            Hand::AllSimples => 2,
            Hand::OutsideHands => 0,
            Hand::TerminalsInAllSets => 1,
            Hand::AllTerminalsAndHonors => 5,
            Hand::HalfFlush => 4,
            Hand::FullFlush => 8,
            Hand::AllHonors => 16,
            Hand::TwoConcealedPungs => 1,
            Hand::ThreeConcealedPungs => 3,
            Hand::PureDoubleChow => 1,
            Hand::PureTripleChow => 12,
            Hand::MixedTripleChow => 3,
            Hand::TriplePung => 12,
            Hand::PureShiftedPungs => 4,
            Hand::ThreePureShiftedPungs => 4,
            Hand::AllTerminals => 9,
            Hand::NoPoint => 0,
        }
    }

    /// The display name of this category.  The three scored-tile categories
    /// share one name; they are merged at reporting time.
    pub open spec fn name_spec(self) -> Seq<char> {
        match self {
            Hand::AllChows => "平和"@,
            Hand::MoonPung => "役牌"@,
            Hand::SunPung => "役牌"@,
            Hand::WindPung => "役牌"@,
            Hand::AllPungs => "對對和"@,
            Hand::LittleThreeWinds => "小三元"@,
            Hand::BigThreeWinds => "大三元"@,
            Hand::TwoDragons => "雙喜"@,
            Hand::AllSimples => "斷幺"@,
            Hand::OutsideHands => "混全帶"@,
            Hand::TerminalsInAllSets => "清全帶"@,
            Hand::AllTerminalsAndHonors => "混老頭"@,
            Hand::HalfFlush => "混一色"@,
            Hand::FullFlush => "清一色"@,
            Hand::AllHonors => "字一色"@,
            Hand::TwoConcealedPungs => "二暗刻"@,
            Hand::ThreeConcealedPungs => "三暗刻"@,
            Hand::PureDoubleChow => "一般高"@,
            Hand::PureTripleChow => "三同順"@,
            Hand::MixedTripleChow => "三色順"@,
            Hand::TriplePung => "三色刻"@,
            Hand::PureShiftedPungs => "二連刻"@,
            Hand::ThreePureShiftedPungs => "三連刻"@,
            Hand::AllTerminals => "清老頭"@,
            Hand::NoPoint => "無役"@,
        }
    }

    pub fn score(&self) -> (r: u16)
        ensures
            r == self.score_spec(),
            r <= HANDMAXSCORE,
    {
        match self {
            Hand::AllChows => 0,
            Hand::MoonPung => 2,
            Hand::SunPung => 2,
            Hand::WindPung => 2,
            Hand::AllPungs => 4,
            Hand::LittleThreeWinds => 4,
            Hand::BigThreeWinds => 16,
            Hand::TwoDragons => 2,
            Hand::AllSimples => 2,
            Hand::OutsideHands => 0,
            Hand::TerminalsInAllSets => 1,
            Hand::AllTerminalsAndHonors => 5,
            Hand::HalfFlush => 4,
            Hand::FullFlush => 8,
            Hand::AllHonors => HANDMAXSCORE,
            Hand::TwoConcealedPungs => 1,
            Hand::ThreeConcealedPungs => 3,
            Hand::PureDoubleChow => 1,
            Hand::PureTripleChow => 12,
            Hand::MixedTripleChow => 3,
            Hand::TriplePung => 12,
            Hand::PureShiftedPungs => 4,
            Hand::ThreePureShiftedPungs => 4,
            Hand::AllTerminals => 9,
            Hand::NoPoint => 0,
        }
    }

    pub fn name(&self) -> (r: String)
        ensures
            r@ == self.name_spec(),
    {
        proof {
            broadcast use vstd::string::to_string_from_display_ensures_for_str;

        }
        match self {
            Hand::AllChows => "平和".to_string(),
            Hand::MoonPung => "役牌".to_string(),
            Hand::SunPung => "役牌".to_string(),
            Hand::WindPung => "役牌".to_string(),
            Hand::AllPungs => "對對和".to_string(),
            Hand::LittleThreeWinds => "小三元".to_string(),
            Hand::BigThreeWinds => "大三元".to_string(),
            Hand::TwoDragons => "雙喜".to_string(),
            Hand::AllSimples => "斷幺".to_string(),
            Hand::OutsideHands => "混全帶".to_string(),
            Hand::TerminalsInAllSets => "清全帶".to_string(),
            Hand::AllTerminalsAndHonors => "混老頭".to_string(),
            Hand::HalfFlush => "混一色".to_string(),
            Hand::FullFlush => "清一色".to_string(),
            Hand::AllHonors => "字一色".to_string(),
            Hand::TwoConcealedPungs => "二暗刻".to_string(),
            Hand::ThreeConcealedPungs => "三暗刻".to_string(),
            Hand::PureDoubleChow => "一般高".to_string(),
            Hand::PureTripleChow => "三同順".to_string(),
            Hand::MixedTripleChow => "三色順".to_string(),
            Hand::TriplePung => "三色刻".to_string(),
            Hand::PureShiftedPungs => "二連刻".to_string(),
            Hand::ThreePureShiftedPungs => "三連刻".to_string(),
            Hand::AllTerminals => "清老頭".to_string(),
            Hand::NoPoint => "無役".to_string(),
        }
    }

    /// Position in the declaration order, as a machine integer.
    pub fn to_index(&self) -> (r: usize)
        ensures
            r == self.index_spec(),
    {
        match self {
            Hand::AllChows => 0,
            Hand::MoonPung => 1,
            Hand::SunPung => 2,
            Hand::WindPung => 3,
            Hand::AllPungs => 4,
            Hand::LittleThreeWinds => 5,
            Hand::BigThreeWinds => 6,
            Hand::TwoDragons => 7,
            Hand::AllSimples => 8,
            Hand::OutsideHands => 9,
            Hand::TerminalsInAllSets => 10,
            Hand::AllTerminalsAndHonors => 11,
            Hand::HalfFlush => 12,
            Hand::FullFlush => 13,
            Hand::AllHonors => 14,
            Hand::TwoConcealedPungs => 15,
            Hand::ThreeConcealedPungs => 16,
            Hand::PureDoubleChow => 17,
            Hand::PureTripleChow => 18,
            Hand::MixedTripleChow => 19,
            Hand::TriplePung => 20,
            Hand::PureShiftedPungs => 21,
            Hand::ThreePureShiftedPungs => 22,
            Hand::AllTerminals => 23,
            Hand::NoPoint => 24,
        }
    }

    /// The category at a declaration-order position; fails exactly on
    /// positions outside the catalogue.
    pub fn from_index(i: usize) -> (r: Option<Hand>)
        ensures
            r == hand_of_index_spec(i as int),
    {
        if i == 0 {
            Some(Hand::AllChows)
        } else if i == 1 {
            Some(Hand::MoonPung)
        } else if i == 2 {
            Some(Hand::SunPung)
        } else if i == 3 {
            Some(Hand::WindPung)
        } else if i == 4 {
            Some(Hand::AllPungs)
        } else if i == 5 {
            Some(Hand::LittleThreeWinds)
        } else if i == 6 {
            Some(Hand::BigThreeWinds)
        } else if i == 7 {
            Some(Hand::TwoDragons)
        } else if i == 8 {
            Some(Hand::AllSimples)
        } else if i == 9 {
            Some(Hand::OutsideHands)
        } else if i == 10 {
            Some(Hand::TerminalsInAllSets)
        } else if i == 11 {
            Some(Hand::AllTerminalsAndHonors)
        } else if i == 12 {
            Some(Hand::HalfFlush)
        } else if i == 13 {
            Some(Hand::FullFlush)
        } else if i == 14 {
            Some(Hand::AllHonors)
        } else if i == 15 {
            Some(Hand::TwoConcealedPungs)
        } else if i == 16 {
            Some(Hand::ThreeConcealedPungs)
        } else if i == 17 {
            Some(Hand::PureDoubleChow)
        } else if i == 18 {
            Some(Hand::PureTripleChow)
        } else if i == 19 {
            Some(Hand::MixedTripleChow)
        } else if i == 20 {
            Some(Hand::TriplePung)
        } else if i == 21 {
            Some(Hand::PureShiftedPungs)
        } else if i == 22 {
            Some(Hand::ThreePureShiftedPungs)
        } else if i == 23 {
            Some(Hand::AllTerminals)
        } else if i == 24 {
            Some(Hand::NoPoint)
        } else {
            None
        }
    }
}

/// The category at a declaration-order position, or nothing outside the
/// catalogue.
pub open spec fn hand_of_index_spec(i: int) -> Option<Hand> {
    if i == 0 {
        Some(Hand::AllChows)
    } else if i == 1 {
        Some(Hand::MoonPung)
    } else if i == 2 {
        Some(Hand::SunPung)
    } else if i == 3 {
        Some(Hand::WindPung)
    } else if i == 4 {
        Some(Hand::AllPungs)
    } else if i == 5 {
        Some(Hand::LittleThreeWinds)
    } else if i == 6 {
        Some(Hand::BigThreeWinds)
    } else if i == 7 {
        Some(Hand::TwoDragons)
    } else if i == 8 {
        Some(Hand::AllSimples)
    } else if i == 9 {
        Some(Hand::OutsideHands)
    } else if i == 10 {
        Some(Hand::TerminalsInAllSets)
    } else if i == 11 {
        Some(Hand::AllTerminalsAndHonors)
    } else if i == 12 {
        Some(Hand::HalfFlush)
    } else if i == 13 {
        Some(Hand::FullFlush)
    } else if i == 14 {
        Some(Hand::AllHonors)
    } else if i == 15 {
        Some(Hand::TwoConcealedPungs)
    } else if i == 16 {
        Some(Hand::ThreeConcealedPungs)
    } else if i == 17 {
        Some(Hand::PureDoubleChow)
    } else if i == 18 {
        Some(Hand::PureTripleChow)
    } else if i == 19 {
        Some(Hand::MixedTripleChow)
    } else if i == 20 {
        Some(Hand::TriplePung)
    } else if i == 21 {
        Some(Hand::PureShiftedPungs)
    } else if i == 22 {
        Some(Hand::ThreePureShiftedPungs)
    } else if i == 23 {
        Some(Hand::AllTerminals)
    } else if i == 24 {
        Some(Hand::NoPoint)
    } else {
        None
    }
}

/// The score weight of the category at a position; the per-position weight
/// table that `HandList::score` sums over.
pub open spec fn weight_of_index_spec(i: int) -> int {
    match hand_of_index_spec(i) {
        Some(h) => h.score_spec(),
        None => 0,
    }
}

/// Every category weight fits under the score cap.
pub proof fn lemma_weight_bounded(i: int)
    ensures
        0 <= weight_of_index_spec(i) <= HANDMAXSCORE,
{
}

} // verus!

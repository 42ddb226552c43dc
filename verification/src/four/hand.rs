//! Scoring-category catalogue of the 14-tile family: a closed enumeration of
//! the patterns a decomposed hand may satisfy, each with a fixed score
//! weight and a display name.

use vstd::prelude::*;

verus! {

/// Number of categories, the reserved no-point category included.
pub const HANDVARIANT: usize = 31;

/// Cap on the score of one hand, however many categories stack.
pub const HANDMAXSCORE: u16 = 16;

/// The closed catalogue of scoring categories.
#[derive(Clone, Copy, PartialEq, Eq, Structural, Debug)]
pub enum Hand {
    AllChows,
    RedPung,
    GreenPung,
    WhitePung,
    WindPung,
    PureStraight,
    AllPungs,
    LittleThreeDragons,
    BigThreeDragons,
    LittleFourWinds,
    AllSimples,
    OutsideHands,
    TerminalsInAllSets,
    AllTerminalsAndHonors,
    HalfFlush,
    FullFlush,
    AllHonors,
    TwoConcealedPungs,
    ThreeConcealedPungs,
    FourConcealedPungs,
    PureDoubleChow,
    TwicePureDoubleChow,
    PureTripleChow,
    MixedTripleChow,
    TriplePung,
    PureShiftedPungs,
    FourPureShiftedPungs,
    BigFourWinds,
    AllTerminals,
    QuadrupleChow,
    NoPoint,
}

impl Hand {
    /// Position in the declaration order; the category's bit position inside
    /// a `HandList`.
    pub open spec fn index_spec(self) -> int {
        match self {
            Hand::AllChows => 0,
            Hand::RedPung => 1,
            Hand::GreenPung => 2,
            Hand::WhitePung => 3,
            Hand::WindPung => 4,
            Hand::PureStraight => 5,
            Hand::AllPungs => 6,
            Hand::LittleThreeDragons => 7,
            Hand::BigThreeDragons => 8,
            Hand::LittleFourWinds => 9,
            Hand::AllSimples => 10,
            Hand::OutsideHands => 11,
            Hand::TerminalsInAllSets => 12,
            Hand::AllTerminalsAndHonors => 13,
            Hand::HalfFlush => 14,
            Hand::FullFlush => 15,
            Hand::AllHonors => 16,
            Hand::TwoConcealedPungs => 17,
            Hand::ThreeConcealedPungs => 18,
            Hand::FourConcealedPungs => 19,
            Hand::PureDoubleChow => 20,
            Hand::TwicePureDoubleChow => 21,
            Hand::PureTripleChow => 22,
            Hand::MixedTripleChow => 23,
            Hand::TriplePung => 24,
            Hand::PureShiftedPungs => 25,
            Hand::FourPureShiftedPungs => 26,
            Hand::BigFourWinds => 27,
            Hand::AllTerminals => 28,
            Hand::QuadrupleChow => 29,
            Hand::NoPoint => 30,
        }
    }

    /// The fixed score weight of this category.
    pub open spec fn score_spec(self) -> int {
        match self {
            Hand::AllChows => 1,
            Hand::RedPung => 2,
            Hand::GreenPung => 2,
            Hand::WhitePung => 2,
            Hand::WindPung => 2,
            Hand::PureStraight => 4,
            Hand::AllPungs => 4,
            Hand::LittleThreeDragons => 6,
            Hand::BigThreeDragons => 12,
            Hand::LittleFourWinds => 12,
            Hand::AllSimples => 1,
            Hand::OutsideHands => 4,
            Hand::TerminalsInAllSets => 6,
            Hand::AllTerminalsAndHonors => 12,
            Hand::HalfFlush => 6,
            Hand::FullFlush => 8,
            Hand::AllHonors => 16,
            Hand::TwoConcealedPungs => 1,
            Hand::ThreeConcealedPungs => 3,
            Hand::FourConcealedPungs => 6,
            Hand::PureDoubleChow => 1,
            Hand::TwicePureDoubleChow => 6,
            Hand::PureTripleChow => 12,
            Hand::MixedTripleChow => 3,
            Hand::TriplePung => 12,
            Hand::PureShiftedPungs => 8,
            Hand::FourPureShiftedPungs => 16,
            Hand::BigFourWinds => 16,
            Hand::AllTerminals => 16,
            Hand::QuadrupleChow => 16,
            Hand::NoPoint => 0,
        }
    }

    /// The display name of this category.  The four scored-tile categories
    /// share one name; they are merged at reporting time.
    pub open spec fn name_spec(self) -> Seq<char> {
        match self {
            Hand::AllChows => "平和"@,
            Hand::RedPung => "役牌"@,
            Hand::GreenPung => "役牌"@,
            Hand::WhitePung => "役牌"@,
            Hand::WindPung => "役牌"@,
            Hand::PureStraight => "一氣"@,
            Hand::AllPungs => "對對和"@,
            Hand::LittleThreeDragons => "小三元"@,
            Hand::BigThreeDragons => "大三元"@,
            Hand::LittleFourWinds => "小四喜"@,
            Hand::AllSimples => "斷幺九"@,
            Hand::OutsideHands => "混全帶"@,
            Hand::TerminalsInAllSets => "清全帶"@,
            Hand::AllTerminalsAndHonors => "混老頭"@,
            Hand::HalfFlush => "混一色"@,
            Hand::FullFlush => "清一色"@,
            Hand::AllHonors => "字一色"@,
            Hand::TwoConcealedPungs => "二暗刻"@,
            Hand::ThreeConcealedPungs => "三暗刻"@,
            Hand::FourConcealedPungs => "四暗刻"@,
            Hand::PureDoubleChow => "一般高"@,
            Hand::TwicePureDoubleChow => "二般高"@,
            Hand::PureTripleChow => "三同順"@,
            Hand::MixedTripleChow => "三色順"@,
            Hand::TriplePung => "三色刻"@,
            Hand::PureShiftedPungs => "三連刻"@,
            Hand::FourPureShiftedPungs => "四連刻"@,
            Hand::BigFourWinds => "大四喜"@,
            Hand::AllTerminals => "清老頭"@,
            Hand::QuadrupleChow => "四同順"@,
            Hand::NoPoint => "無役"@,
        }
    }

    pub fn score(&self) -> (r: u16)
        ensures
            r == self.score_spec(),
            r <= HANDMAXSCORE,
    {
        match self {
            Hand::AllChows => 1,
            Hand::RedPung => 2,
            Hand::GreenPung => 2,
            Hand::WhitePung => 2,
            Hand::WindPung => 2,
            Hand::PureStraight => 4,
            Hand::AllPungs => 4,
            Hand::LittleThreeDragons => 6,
            Hand::BigThreeDragons => 12,
            Hand::LittleFourWinds => 12,
            Hand::AllSimples => 1,
            Hand::OutsideHands => 4,
            Hand::TerminalsInAllSets => 6,
            Hand::AllTerminalsAndHonors => 12,
            Hand::HalfFlush => 6,
            Hand::FullFlush => 8,
            Hand::AllHonors => HANDMAXSCORE,
            Hand::TwoConcealedPungs => 1,
            Hand::ThreeConcealedPungs => 3,
            Hand::FourConcealedPungs => 6,
            Hand::PureDoubleChow => 1,
            Hand::TwicePureDoubleChow => 6,
            Hand::PureTripleChow => 12,
            Hand::MixedTripleChow => 3,
            Hand::TriplePung => 12,
            Hand::PureShiftedPungs => 8,
            Hand::FourPureShiftedPungs => HANDMAXSCORE,
            Hand::BigFourWinds => HANDMAXSCORE,
            Hand::AllTerminals => HANDMAXSCORE,
            Hand::QuadrupleChow => HANDMAXSCORE,
            Hand::NoPoint => 0,
        }
    }

    pub fn name(&self) -> (r: String)
        ensures
            r@ == self.name_spec(),
    {
        proof {
            broadcast use vstd::string::to_string_from_display_ensures_for_str;

        }
        match self {
            Hand::AllChows => "平和".to_string(),
            Hand::RedPung => "役牌".to_string(),
            Hand::GreenPung => "役牌".to_string(),
            Hand::WhitePung => "役牌".to_string(),
            Hand::WindPung => "役牌".to_string(),
            Hand::PureStraight => "一氣".to_string(),
            Hand::AllPungs => "對對和".to_string(),
            Hand::LittleThreeDragons => "小三元".to_string(),
            Hand::BigThreeDragons => "大三元".to_string(),
            Hand::LittleFourWinds => "小四喜".to_string(),
            Hand::AllSimples => "斷幺九".to_string(),
            Hand::OutsideHands => "混全帶".to_string(),
            Hand::TerminalsInAllSets => "清全帶".to_string(),
            Hand::AllTerminalsAndHonors => "混老頭".to_string(),
            Hand::HalfFlush => "混一色".to_string(),
            Hand::FullFlush => "清一色".to_string(),
            Hand::AllHonors => "字一色".to_string(),
            Hand::TwoConcealedPungs => "二暗刻".to_string(),
            Hand::ThreeConcealedPungs => "三暗刻".to_string(),
            Hand::FourConcealedPungs => "四暗刻".to_string(),
            Hand::PureDoubleChow => "一般高".to_string(),
            Hand::TwicePureDoubleChow => "二般高".to_string(),
            Hand::PureTripleChow => "三同順".to_string(),
            Hand::MixedTripleChow => "三色順".to_string(),
            Hand::TriplePung => "三色刻".to_string(),
            Hand::PureShiftedPungs => "三連刻".to_string(),
            Hand::FourPureShiftedPungs => "四連刻".to_string(),
            Hand::BigFourWinds => "大四喜".to_string(),
            Hand::AllTerminals => "清老頭".to_string(),
            Hand::QuadrupleChow => "四同順".to_string(),
            Hand::NoPoint => "無役".to_string(),
        }
    }

    /// Position in the declaration order, as a machine integer.
    pub fn to_index(&self) -> (r: usize)
        ensures
            r == self.index_spec(),
    {
        match self {
            Hand::AllChows => 0,
            Hand::RedPung => 1,
            Hand::GreenPung => 2,
            Hand::WhitePung => 3,
            Hand::WindPung => 4,
            Hand::PureStraight => 5,
            Hand::AllPungs => 6,
            Hand::LittleThreeDragons => 7,
            Hand::BigThreeDragons => 8,
            Hand::LittleFourWinds => 9,
            Hand::AllSimples => 10,
            Hand::OutsideHands => 11,
            Hand::TerminalsInAllSets => 12,
            Hand::AllTerminalsAndHonors => 13,
            Hand::HalfFlush => 14,
            Hand::FullFlush => 15,
            Hand::AllHonors => 16,
            Hand::TwoConcealedPungs => 17,
            Hand::ThreeConcealedPungs => 18,
            Hand::FourConcealedPungs => 19,
            Hand::PureDoubleChow => 20,
            Hand::TwicePureDoubleChow => 21,
            Hand::PureTripleChow => 22,
            Hand::MixedTripleChow => 23,
            Hand::TriplePung => 24,
            Hand::PureShiftedPungs => 25,
            Hand::FourPureShiftedPungs => 26,
            Hand::BigFourWinds => 27,
            Hand::AllTerminals => 28,
            Hand::QuadrupleChow => 29,
            Hand::NoPoint => 30,
        }
    }

    /// The category at a declaration-order position; fails exactly on
    /// positions outside the catalogue.
    pub fn from_index(i: usize) -> (r: Option<Hand>)
        ensures
            r == hand_of_index_spec(i as int),
    {
                if i == 0 {
            Some(Hand::AllChows)
        } else 
if i == 1 {
            Some(Hand::RedPung)
        } else 
if i == 2 {
            Some(Hand::GreenPung)
        } else 
if i == 3 {
            Some(Hand::WhitePung)
        } else 
if i == 4 {
            Some(Hand::WindPung)
        } else 
if i == 5 {
            Some(Hand::PureStraight)
        } else 
if i == 6 {
            Some(Hand::AllPungs)
        } else 
if i == 7 {
            Some(Hand::LittleThreeDragons)
        } else 
if i == 8 {
            Some(Hand::BigThreeDragons)
        } else 
if i == 9 {
            Some(Hand::LittleFourWinds)
        } else 
if i == 10 {
            Some(Hand::AllSimples)
        } else 
if i == 11 {
            Some(Hand::OutsideHands)
        } else 
if i == 12 {
            Some(Hand::TerminalsInAllSets)
        } else 
if i == 13 {
            Some(Hand::AllTerminalsAndHonors)
        } else 
if i == 14 {
            Some(Hand::HalfFlush)
        } else 
if i == 15 {
            Some(Hand::FullFlush)
        } else 
if i == 16 {
            Some(Hand::AllHonors)
        } else 
if i == 17 {
            Some(Hand::TwoConcealedPungs)
        } else 
if i == 18 {
            Some(Hand::ThreeConcealedPungs)
        } else 
if i == 19 {
            Some(Hand::FourConcealedPungs)
        } else 
if i == 20 {
            Some(Hand::PureDoubleChow)
        } else 
if i == 21 {
            Some(Hand::TwicePureDoubleChow)
        } else 
if i == 22 {
            Some(Hand::PureTripleChow)
        } else 
if i == 23 {
            Some(Hand::MixedTripleChow)
        } else 
if i == 24 {
            Some(Hand::TriplePung)
        } else 
if i == 25 {
            Some(Hand::PureShiftedPungs)
        } else 
if i == 26 {
            Some(Hand::FourPureShiftedPungs)
        } else 
if i == 27 {
            Some(Hand::BigFourWinds)
        } else 
if i == 28 {
            Some(Hand::AllTerminals)
        } else 
if i == 29 {
            Some(Hand::QuadrupleChow)
        } else 
if i == 30 {
            Some(Hand::NoPoint)
        } else {
            None
        }
    }
}

/// The category at a declaration-order position, or nothing outside the
/// catalogue.
pub open spec fn hand_of_index_spec(i: int) -> Option<Hand> {
    if i == 0 {
        Some(Hand::AllChows)
    } else 
if i == 1 {
        Some(Hand::RedPung)
    } else 
if i == 2 {
        Some(Hand::GreenPung)
    } else 
if i == 3 {
        Some(Hand::WhitePung)
    } else 
if i == 4 {
        Some(Hand::WindPung)
    } else 
if i == 5 {
        Some(Hand::PureStraight)
    } else 
if i == 6 {
        Some(Hand::AllPungs)
    } else 
if i == 7 {
        Some(Hand::LittleThreeDragons)
    } else 
if i == 8 {
        Some(Hand::BigThreeDragons)
    } else 
if i == 9 {
        Some(Hand::LittleFourWinds)
    } else 
if i == 10 {
        Some(Hand::AllSimples)
    } else 
if i == 11 {
        Some(Hand::OutsideHands)
    } else 
if i == 12 {
        Some(Hand::TerminalsInAllSets)
    } else 
if i == 13 {
        Some(Hand::AllTerminalsAndHonors)
    } else 
if i == 14 {
        Some(Hand::HalfFlush)
    } else 
if i == 15 {
        Some(Hand::FullFlush)
    } else 
if i == 16 {
        Some(Hand::AllHonors)
    } else 
if i == 17 {
        Some(Hand::TwoConcealedPungs)
    } else 
if i == 18 {
        Some(Hand::ThreeConcealedPungs)
    } else 
if i == 19 {
        Some(Hand::FourConcealedPungs)
    } else 
if i == 20 {
        Some(Hand::PureDoubleChow)
    } else 
if i == 21 {
        Some(Hand::TwicePureDoubleChow)
    } else 
if i == 22 {
        Some(Hand::PureTripleChow)
    } else 
if i == 23 {
        Some(Hand::MixedTripleChow)
    } else 
if i == 24 {
        Some(Hand::TriplePung)
    } else 
if i == 25 {
        Some(Hand::PureShiftedPungs)
    } else 
if i == 26 {
        Some(Hand::FourPureShiftedPungs)
    } else 
if i == 27 {
        Some(Hand::BigFourWinds)
    } else 
if i == 28 {
        Some(Hand::AllTerminals)
    } else 
if i == 29 {
        Some(Hand::QuadrupleChow)
    } else 
if i == 30 {
        Some(Hand::NoPoint)
    } else {
        None
    }
}

/// The score weight of the category at a position; the per-position weight
/// table that `HandList::score` sums over.
pub open spec fn weight_of_index_spec(i: int) -> int {
    match hand_of_index_spec(i) {
        Some(h) => h.score_spec(),
        None => 0,
    }
}

/// Every category weight fits under the score cap.
pub proof fn lemma_weight_bounded(i: int)
    ensures
        0 <= weight_of_index_spec(i) <= HANDMAXSCORE,
{
}

} // verus!

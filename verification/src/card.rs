//! The carriers that an index slot can name.

use crate::error::ErrorKind;
use vstd::prelude::*;

verus! {

/// A carrier: the four network operators and the virtual operators that
/// resell each of them.
#[derive(Debug, Clone, Copy, PartialEq, Eq, Structural)]
pub enum CardType {
    /// China Mobile.
    Cmcc,
    /// China Unicom.
    Cucc,
    /// China Telecom.
    Ctcc,
    /// A virtual operator on China Telecom.
    CtccV,
    /// A virtual operator on China Unicom.
    CuccV,
    /// A virtual operator on China Mobile.
    CmccV,
    /// China Broadnet.
    Cbcc,
    /// A virtual operator on China Broadnet.
    CbccV,
}

impl CardType {
    /// The code that stands for this carrier in an index slot.
    pub open spec fn code(self) -> u8 {
        match self {
            CardType::Cmcc => 1,
            CardType::Cucc => 2,
            CardType::Ctcc => 3,
            CardType::CtccV => 4,
            CardType::CuccV => 5,
            CardType::CmccV => 6,
            CardType::Cbcc => 7,
            CardType::CbccV => 8,
        }
    }

    /// The carrier that a code stands for, if it stands for one.
    pub open spec fn of_code(i: u8) -> Option<CardType> {
        if i == 1 {
            Some(CardType::Cmcc)
        } else if i == 2 {
            Some(CardType::Cucc)
        } else if i == 3 {
            Some(CardType::Ctcc)
        } else if i == 4 {
            Some(CardType::CtccV)
        } else if i == 5 {
            Some(CardType::CuccV)
        } else if i == 6 {
            Some(CardType::CmccV)
        } else if i == 7 {
            Some(CardType::Cbcc)
        } else if i == 8 {
            Some(CardType::CbccV)
        } else {
            None
        }
    }

    /// The name under which this carrier is shown.
    pub open spec fn description(self) -> Seq<char> {
        match self {
            CardType::Cmcc => "中国移动"@,
            CardType::Cucc => "中国联通"@,
            CardType::Ctcc => "中国电信"@,
            CardType::CtccV => "中国电信虚拟运营商"@,
            CardType::CuccV => "中国联通虚拟运营商"@,
            CardType::CmccV => "中国移动虚拟运营商"@,
            CardType::Cbcc => "中国广电"@,
            CardType::CbccV => "中国广电虚拟运营商"@,
        }
    }

    /// The carrier for a code from 1 to 8; any other code is refused.
    pub fn from_u8(i: u8) -> (r: Result<CardType, ErrorKind>)
        ensures
            r == match CardType::of_code(i) {
                Some(card) => Ok::<CardType, ErrorKind>(card),
                None => Err(ErrorKind::InvalidOpNo),
            },
            r is Ok <==> 1 <= i <= 8,
            r matches Ok(card) ==> card.code() == i,
    {
        match i {
            1 => Ok(CardType::Cmcc),
            2 => Ok(CardType::Cucc),
            3 => Ok(CardType::Ctcc),
            4 => Ok(CardType::CtccV),
            5 => Ok(CardType::CuccV),
            6 => Ok(CardType::CmccV),
            7 => Ok(CardType::Cbcc),
            8 => Ok(CardType::CbccV),
            _ => Err(ErrorKind::InvalidOpNo),
        }
    }

    /// The name under which this carrier is shown, as an owned string.
    pub fn get_description(&self) -> (r: String)
        ensures
            r@ == self.description(),
    {
        match self {
            CardType::Cmcc => "中国移动".to_owned(),
            CardType::Cucc => "中国联通".to_owned(),
            CardType::Ctcc => "中国电信".to_owned(),
            CardType::CtccV => "中国电信虚拟运营商".to_owned(),
            CardType::CuccV => "中国联通虚拟运营商".to_owned(),
            CardType::CmccV => "中国移动虚拟运营商".to_owned(),
            CardType::Cbcc => "中国广电".to_owned(),
            CardType::CbccV => "中国广电虚拟运营商".to_owned(),
        }
    }
}

/// Codes and carriers correspond one to one: the code of the carrier that a
/// code stands for is that code, and every carrier has a code from 1 to 8.
pub proof fn lemma_code_round_trip(card: CardType)
    ensures
        1 <= card.code() <= 8,
        CardType::of_code(card.code()) == Some(card),
{
}

} // verus!

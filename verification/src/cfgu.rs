//! Decoding of System Configuration service answers.
//!
//! The configuration service reports the console's region, model and
//! language as raw code numbers.  The native calls that fetch those codes
//! live with the platform bindings; this module holds the decoding rules:
//! which codes are known, which variant each code means, and how a
//! variant maps back to its code.

use vstd::prelude::*;

verus! {

/// Console region.
#[derive(Copy, Clone, Debug, PartialEq, Eq, Structural)]
pub enum Region {
    /// Japan.
    Japan,
    /// USA.
    USA,
    /// Europe.
    Europe,
    /// Australia.
    Australia,
    /// China.
    China,
    /// Korea.
    Korea,
    /// Taiwan.
    Taiwan,
}

/// Language set for the console's OS.
#[derive(Copy, Clone, Debug, PartialEq, Eq, Structural)]
pub enum Language {
    /// Japanese.
    Japanese,
    /// English.
    English,
    /// French.
    French,
    /// German.
    German,
    /// Italian.
    Italian,
    /// Spanish.
    Spanish,
    /// Simplified Chinese.
    SimplifiedChinese,
    /// Korean.
    Korean,
    /// Dutch.
    Dutch,
    /// Portuguese.
    Portuguese,
    /// Russian.
    Russian,
    /// Traditional Chinese.
    TraditionalChinese,
}

/// Specific model of the console.
#[derive(Copy, Clone, Debug, PartialEq, Eq, Structural)]
pub enum SystemModel {
    /// Old Nintendo 3DS.
    Old3DS,
    /// Old Nintendo 3DS XL.
    Old3DSXL,
    /// New Nintendo 3DS.
    New3DS,
    /// Old Nintendo 2DS.
    Old2DS,
    /// New Nintendo 3DS XL.
    New3DSXL,
    /// New Nintendo 2DS XL.
    New2DSXL,
}

/// The region a raw region code stands for.
pub open spec fn region_of(value: u8) -> Result<Region, ()> {
    if value == 0 {
        Ok(Region::Japan)
    } else if value == 1 {
        Ok(Region::USA)
    } else if value == 2 {
        Ok(Region::Europe)
    } else if value == 3 {
        Ok(Region::Australia)
    } else if value == 4 {
        Ok(Region::China)
    } else if value == 5 {
        Ok(Region::Korea)
    } else if value == 6 {
        Ok(Region::Taiwan)
    } else {
        Err(())
    }
}

/// The raw code of a region.
pub open spec fn region_code(r: Region) -> u8 {
    match r {
        Region::Japan => 0,
        Region::USA => 1,
        Region::Europe => 2,
        Region::Australia => 3,
        Region::China => 4,
        Region::Korea => 5,
        Region::Taiwan => 6,
    }
}

/// The language a raw language code stands for.
pub open spec fn language_of(value: i8) -> Result<Language, ()> {
    if value == 0 {
        Ok(Language::Japanese)
    } else if value == 1 {
        Ok(Language::English)
    } else if value == 2 {
        Ok(Language::French)
    } else if value == 3 {
        Ok(Language::German)
    } else if value == 4 {
        Ok(Language::Italian)
    } else if value == 5 {
        Ok(Language::Spanish)
    } else if value == 6 {
        Ok(Language::SimplifiedChinese)
    } else if value == 7 {
        Ok(Language::Korean)
    } else if value == 8 {
        Ok(Language::Dutch)
    } else if value == 9 {
        Ok(Language::Portuguese)
    } else if value == 10 {
        Ok(Language::Russian)
    } else if value == 11 {
        Ok(Language::TraditionalChinese)
    } else {
        Err(())
    }
}

/// The raw code of a language.
pub open spec fn language_code(l: Language) -> i8 {
    match l {
        Language::Japanese => 0,
        Language::English => 1,
        Language::French => 2,
        Language::German => 3,
        Language::Italian => 4,
        Language::Spanish => 5,
        Language::SimplifiedChinese => 6,
        Language::Korean => 7,
        Language::Dutch => 8,
        Language::Portuguese => 9,
        Language::Russian => 10,
        Language::TraditionalChinese => 11,
    }
}

/// The model a raw model code stands for.
pub open spec fn model_of(value: u8) -> Result<SystemModel, ()> {
    if value == 0 {
        Ok(SystemModel::Old3DS)
    } else if value == 1 {
        Ok(SystemModel::Old3DSXL)
    } else if value == 2 {
        Ok(SystemModel::New3DS)
    } else if value == 3 {
        Ok(SystemModel::Old2DS)
    } else if value == 4 {
        Ok(SystemModel::New3DSXL)
    } else if value == 5 {
        Ok(SystemModel::New2DSXL)
    } else {
        Err(())
    }
}

/// The raw code of a model.
pub open spec fn model_code(m: SystemModel) -> u8 {
    match m {
        SystemModel::Old3DS => 0,
        SystemModel::Old3DSXL => 1,
        SystemModel::New3DS => 2,
        SystemModel::Old2DS => 3,
        SystemModel::New3DSXL => 4,
        SystemModel::New2DSXL => 5,
    }
}

impl Region {
    /// Decodes a raw region code; unknown codes are rejected.
    pub fn try_from(value: u8) -> (r: Result<Region, ()>)
        ensures
            r == region_of(value),
    {
        match value {
            0 => Ok(Region::Japan),
            1 => Ok(Region::USA),
            2 => Ok(Region::Europe),
            3 => Ok(Region::Australia),
            4 => Ok(Region::China),
            5 => Ok(Region::Korea),
            6 => Ok(Region::Taiwan),
            _ => Err(()),
        }
    }

    /// The raw code of this region.
    pub fn to_raw(self) -> (r: u8)
        ensures
            r == region_code(self),
    {
        match self {
            Region::Japan => 0,
            Region::USA => 1,
            Region::Europe => 2,
            Region::Australia => 3,
            Region::China => 4,
            Region::Korea => 5,
            Region::Taiwan => 6,
        }
    }
}

impl Language {
    /// Decodes a raw language code; unknown codes are rejected.
    pub fn try_from(value: i8) -> (r: Result<Language, ()>)
        ensures
            r == language_of(value),
    {
        match value {
            0 => Ok(Language::Japanese),
            1 => Ok(Language::English),
            2 => Ok(Language::French),
            3 => Ok(Language::German),
            4 => Ok(Language::Italian),
            5 => Ok(Language::Spanish),
            6 => Ok(Language::SimplifiedChinese),
            7 => Ok(Language::Korean),
            8 => Ok(Language::Dutch),
            9 => Ok(Language::Portuguese),
            10 => Ok(Language::Russian),
            11 => Ok(Language::TraditionalChinese),
            _ => Err(()),
        }
    }

    /// The raw code of this language.
    pub fn to_raw(self) -> (r: i8)
        ensures
            r == language_code(self),
    {
        match self {
            Language::Japanese => 0,
            Language::English => 1,
            Language::French => 2,
            Language::German => 3,
            Language::Italian => 4,
            Language::Spanish => 5,
            Language::SimplifiedChinese => 6,
            Language::Korean => 7,
            Language::Dutch => 8,
            Language::Portuguese => 9,
            Language::Russian => 10,
            Language::TraditionalChinese => 11,
        }
    }
}

impl SystemModel {
    /// Decodes a raw model code; unknown codes are rejected.
    pub fn try_from(value: u8) -> (r: Result<SystemModel, ()>)
        ensures
            r == model_of(value),
    {
        match value {
            0 => Ok(SystemModel::Old3DS),
            1 => Ok(SystemModel::Old3DSXL),
            2 => Ok(SystemModel::New3DS),
            3 => Ok(SystemModel::Old2DS),
            4 => Ok(SystemModel::New3DSXL),
            5 => Ok(SystemModel::New2DSXL),
            _ => Err(()),
        }
    }

    /// The raw code of this model.
    pub fn to_raw(self) -> (r: u8)
        ensures
            r == model_code(self),
    {
        match self {
            SystemModel::Old3DS => 0,
            SystemModel::Old3DSXL => 1,
            SystemModel::New3DS => 2,
            SystemModel::Old2DS => 3,
            SystemModel::New3DSXL => 4,
            SystemModel::New2DSXL => 5,
        }
    }
}

/// Handle to the System Configuration service: the decoding core.  The
/// native calls that acquire the service and fetch raw answers live with
/// the platform bindings; they hand the raw values to the methods here.
pub struct Cfgu {
    _priv: (),
}

impl Cfgu {
    /// Decides the outcome of service initialisation from the native
    /// result code: negative codes are failures and are handed back,
    /// non-negative codes yield a handle.
    pub fn new(rc: i32) -> (r: Result<Cfgu, i32>)
        ensures
            match r {
                Ok(_) => rc >= 0,
                Err(e) => rc < 0 && e == rc,
            },
    {
        if rc < 0 {
            Err(rc)
        } else {
            Ok(Cfgu { _priv: () })
        }
    }

    /// Decodes the raw answer of the region query.
    pub fn region(&self, raw: u8) -> (r: Result<Region, ()>)
        ensures
            r == region_of(raw),
    {
        Region::try_from(raw)
    }

    /// Decodes the raw answer of the model query.
    pub fn model(&self, raw: u8) -> (r: Result<SystemModel, ()>)
        ensures
            r == model_of(raw),
    {
        SystemModel::try_from(raw)
    }

    /// Decodes the raw answer of the language query.
    pub fn language(&self, raw: i8) -> (r: Result<Language, ()>)
        ensures
            r == language_of(raw),
    {
        Language::try_from(raw)
    }

    /// Decides 2DS-family membership from the raw answer of the model
    /// family query: the code zero means a 2DS-family console.
    pub fn is_2ds_family(&self, raw: u8) -> (r: bool)
        ensures
            r == (raw == 0),
    {
        raw == 0
    }
}

} // verus!

//! The `user_data_registered_itu_t_t35()` SEI message.

use vstd::prelude::*;
use crate::nal::sei::{HeaderType, SeiMessage};
use crate::Context;

verus! {

#[derive(Debug, Clone, Copy, PartialEq, Eq)]
pub enum ItuTT35Error {
    NotEnoughData { expected: usize, actual: usize },
}

/// The country (or extension) that an `itu_t_t35_country_code` designates.
#[derive(Debug, Clone, Copy, PartialEq, Eq, Structural)]
pub enum ItuTT35 {
    Japan,
    Albania,
    Algeria,
    AmericanSamoa,
    GermanyFederalRepublicOf(u8),
    Anguilla,
    AntiguaandBarbuda,
    Argentina,
    AscensionseeSHelena,
    Australia,
    Austria,
    Bahamas,
    Bahrain,
    Bangladesh,
    Barbados,
    Belgium,
    Belize,
    BeninRepublicOf,
    Bermudas,
    BhutanKingdomOf,
    Bolivia,
    Botswana,
    Brazil,
    BritishAntarcticTerritory,
    BritishIndianOceanTerritory,
    BritishVirginIslands,
    BruneiDarussalam,
    Bulgaria,
    MyanmarUnionOf,
    Burundi,
    Byelorussia,
    Cameroon,
    Canada,
    CapeVerde,
    CaymanIslands,
    CentralAfricanRepublic,
    Chad,
    Chile,
    China,
    Colombia,
    Comoros,
    Congo,
    CookIslands,
    CostaRica,
    Cuba,
    Cyprus,
    CzechandSlovakFederalRepublic,
    Cambodia,
    DemocraticPeoplesRepublicOfKorea,
    Denmark,
    Djibouti,
    DominicanRepublic,
    Dominica,
    Ecuador,
    Egypt,
    ElSalvador,
    EquatorialGuinea,
    Ethiopia,
    FalklandIslands,
    Fiji,
    Finland,
    France,
    FrenchPolynesia,
    FrenchSouthernAndAntarcticLands,
    Gabon,
    Gambia,
    Angola,
    Ghana,
    Gibraltar,
    Greece,
    Grenada,
    Guam,
    Guatemala,
    Guernsey,
    Guinea,
    GuineaBissau,
    Guayana,
    Haiti,
    Honduras,
    Hongkong,
    HungaryRepublicOf,
    Iceland,
    India,
    Indonesia,
    IranIslamicRepublicOf,
    Iraq,
    Ireland,
    Israel,
    Italy,
    CotedIvoire,
    Jamaica,
    Afghanistan,
    Jersey,
    Jordan,
    Kenya,
    Kiribati,
    KoreaRepublicOf,
    Kuwait,
    LaoPeoplesDemocraticRepublic,
    Lebanon,
    Lesotho,
    Liberia,
    Libya,
    Liechtenstein,
    Luxembourg,
    Macau,
    Madagascar,
    Malaysia,
    Malawi,
    Maldives,
    Mali,
    Malta,
    Mauritania,
    Mauritius,
    Mexico,
    Monaco,
    Mongolia,
    Montserrat,
    Morocco,
    Mozambique,
    Nauru,
    Nepal,
    Netherlands,
    NetherlandsAntilles,
    NewCaledonia,
    NewZealand,
    Nicaragua,
    Niger,
    Nigeria,
    Norway,
    Oman,
    Pakistan,
    Panama,
    PapuaNewGuinea,
    Paraguay,
    Peru,
    Philippines,
    PolandRepublicOf,
    Portugal,
    PuertoRico,
    Qatar,
    Romania,
    Rwanda,
    SaintKittsAndNevis,
    SaintCroix,
    SaintHelenaAndAscension,
    SaintLucia,
    SanMarino,
    SaintThomas,
    SaoTomeAndPrincipe,
    SaintVincentAndTheGrenadines,
    SaudiArabia,
    Senegal,
    Seychelles,
    SierraLeone,
    Singapore,
    SolomonIslands,
    Somalia,
    SouthAfrica,
    Spain,
    SriLanka,
    Sudan,
    Suriname,
    Swaziland,
    Sweden,
    Switzerland,
    Syria,
    Tanzania,
    Thailand,
    Togo,
    Tonga,
    TrinidadAndTobago,
    Tunisia,
    Turkey,
    TurksAndCaicosIslands,
    Tuvalu,
    Uganda,
    Ukraine,
    UnitedArabEmirates,
    UnitedKingdom,
    UnitedStates,
    BurkinaFaso,
    Uruguay,
    USSR,
    Vanuatu,
    VaticanCityState,
    Venezuela,
    VietNam,
    WallisAndFutuna,
    WesternSamoa,
    YemenRepublicOf(u8),
    Yugoslavia,
    Zaire,
    Zambia,
    Zimbabwe,
    Unknown(u8),
    Extended(u8),
}

/// The country for an `itu_t_t35_country_code` other than `0xFF`.
pub open spec fn spec_itu_t_t35(code: u8) -> ItuTT35 {
    match code {
        0b0000_0000 => ItuTT35::Japan,
        0b0000_0001 => ItuTT35::Albania,
        0b0000_0010 => ItuTT35::Algeria,
        0b0000_0011 => ItuTT35::AmericanSamoa,
        0b0000_0100 => ItuTT35::GermanyFederalRepublicOf(code),
        0b0000_0101 => ItuTT35::Anguilla,
        0b0000_0110 => ItuTT35::AntiguaandBarbuda,
        0b0000_0111 => ItuTT35::Argentina,
        0b0000_1000 => ItuTT35::AscensionseeSHelena,
        0b0000_1001 => ItuTT35::Australia,
        0b0000_1010 => ItuTT35::Austria,
        0b0000_1011 => ItuTT35::Bahamas,
        0b0000_1100 => ItuTT35::Bahrain,
        0b0000_1101 => ItuTT35::Bangladesh,
        0b0000_1110 => ItuTT35::Barbados,
        0b0000_1111 => ItuTT35::Belgium,
        0b0001_0000 => ItuTT35::Belize,
        0b0001_0001 => ItuTT35::BeninRepublicOf,
        0b0001_0010 => ItuTT35::Bermudas,
        0b0001_0011 => ItuTT35::BhutanKingdomOf,
        0b0001_0100 => ItuTT35::Bolivia,
        0b0001_0101 => ItuTT35::Botswana,
        0b0001_0110 => ItuTT35::Brazil,
        0b0001_0111 => ItuTT35::BritishAntarcticTerritory,
        0b0001_1000 => ItuTT35::BritishIndianOceanTerritory,
        0b0001_1001 => ItuTT35::BritishVirginIslands,
        0b0001_1010 => ItuTT35::BruneiDarussalam,
        0b0001_1011 => ItuTT35::Bulgaria,
        0b0001_1100 => ItuTT35::MyanmarUnionOf,
        0b0001_1101 => ItuTT35::Burundi,
        0b0001_1110 => ItuTT35::Byelorussia,
        0b0001_1111 => ItuTT35::Cameroon,
        0b0010_0000 => ItuTT35::Canada,
        0b0010_0001 => ItuTT35::CapeVerde,
        0b0010_0010 => ItuTT35::CaymanIslands,
        0b0010_0011 => ItuTT35::CentralAfricanRepublic,
        0b0010_0100 => ItuTT35::Chad,
        0b0010_0101 => ItuTT35::Chile,
        0b0010_0110 => ItuTT35::China,
        0b0010_0111 => ItuTT35::Colombia,
        0b0010_1000 => ItuTT35::Comoros,
        0b0010_1001 => ItuTT35::Congo,
        0b0010_1010 => ItuTT35::CookIslands,
        0b0010_1011 => ItuTT35::CostaRica,
        0b0010_1100 => ItuTT35::Cuba,
        0b0010_1101 => ItuTT35::Cyprus,
        0b0010_1110 => ItuTT35::CzechandSlovakFederalRepublic,
        0b0010_1111 => ItuTT35::Cambodia,
        0b0011_0000 => ItuTT35::DemocraticPeoplesRepublicOfKorea,
        0b0011_0001 => ItuTT35::Denmark,
        0b0011_0010 => ItuTT35::Djibouti,
        0b0011_0011 => ItuTT35::DominicanRepublic,
        0b0011_0100 => ItuTT35::Dominica,
        0b0011_0101 => ItuTT35::Ecuador,
        0b0011_0110 => ItuTT35::Egypt,
        0b0011_0111 => ItuTT35::ElSalvador,
        0b0011_1000 => ItuTT35::EquatorialGuinea,
        0b0011_1001 => ItuTT35::Ethiopia,
        0b0011_1010 => ItuTT35::FalklandIslands,
        0b0011_1011 => ItuTT35::Fiji,
        0b0011_1100 => ItuTT35::Finland,
        0b0011_1101 => ItuTT35::France,
        0b0011_1110 => ItuTT35::FrenchPolynesia,
        0b0011_1111 => ItuTT35::FrenchSouthernAndAntarcticLands,
        0b0100_0000 => ItuTT35::Gabon,
        0b0100_0001 => ItuTT35::Gambia,
        0b0100_0010 => ItuTT35::GermanyFederalRepublicOf(code),
        0b0100_0011 => ItuTT35::Angola,
        0b0100_0100 => ItuTT35::Ghana,
        0b0100_0101 => ItuTT35::Gibraltar,
        0b0100_0110 => ItuTT35::Greece,
        0b0100_0111 => ItuTT35::Grenada,
        0b0100_1000 => ItuTT35::Guam,
        0b0100_1001 => ItuTT35::Guatemala,
        0b0100_1010 => ItuTT35::Guernsey,
        0b0100_1011 => ItuTT35::Guinea,
        0b0100_1100 => ItuTT35::GuineaBissau,
        0b0100_1101 => ItuTT35::Guayana,
        0b0100_1110 => ItuTT35::Haiti,
        0b0100_1111 => ItuTT35::Honduras,
        0b0101_0000 => ItuTT35::Hongkong,
        0b0101_0001 => ItuTT35::HungaryRepublicOf,
        0b0101_0010 => ItuTT35::Iceland,
        0b0101_0011 => ItuTT35::India,
        0b0101_0100 => ItuTT35::Indonesia,
        0b0101_0101 => ItuTT35::IranIslamicRepublicOf,
        0b0101_0110 => ItuTT35::Iraq,
        0b0101_0111 => ItuTT35::Ireland,
        0b0101_1000 => ItuTT35::Israel,
        0b0101_1001 => ItuTT35::Italy,
        0b0101_1010 => ItuTT35::CotedIvoire,
        0b0101_1011 => ItuTT35::Jamaica,
        0b0101_1100 => ItuTT35::Afghanistan,
        0b0101_1101 => ItuTT35::Jersey,
        0b0101_1110 => ItuTT35::Jordan,
        0b0101_1111 => ItuTT35::Kenya,
        0b0110_0000 => ItuTT35::Kiribati,
        0b0110_0001 => ItuTT35::KoreaRepublicOf,
        0b0110_0010 => ItuTT35::Kuwait,
        0b0110_0011 => ItuTT35::LaoPeoplesDemocraticRepublic,
        0b0110_0100 => ItuTT35::Lebanon,
        0b0110_0101 => ItuTT35::Lesotho,
        0b0110_0110 => ItuTT35::Liberia,
        0b0110_0111 => ItuTT35::Libya,
        0b0110_1000 => ItuTT35::Liechtenstein,
        0b0110_1001 => ItuTT35::Luxembourg,
        0b0110_1010 => ItuTT35::Macau,
        0b0110_1011 => ItuTT35::Madagascar,
        0b0110_1100 => ItuTT35::Malaysia,
        0b0110_1101 => ItuTT35::Malawi,
        0b0110_1110 => ItuTT35::Maldives,
        0b0110_1111 => ItuTT35::Mali,
        0b0111_0000 => ItuTT35::Malta,
        0b1111_0001 => ItuTT35::Mauritania,
        0b0111_0010 => ItuTT35::Mauritius,
        0b0111_0011 => ItuTT35::Mexico,
        0b0111_0100 => ItuTT35::Monaco,
        0b0111_0101 => ItuTT35::Mongolia,
        0b0111_0110 => ItuTT35::Montserrat,
        0b0111_0111 => ItuTT35::Morocco,
        0b0111_1000 => ItuTT35::Mozambique,
        0b0111_1001 => ItuTT35::Nauru,
        0b0111_1010 => ItuTT35::Nepal,
        0b0111_1011 => ItuTT35::Netherlands,
        0b0111_1100 => ItuTT35::NetherlandsAntilles,
        0b0111_1101 => ItuTT35::NewCaledonia,
        0b0111_1110 => ItuTT35::NewZealand,
        0b0111_1111 => ItuTT35::Nicaragua,
        0b1000_0000 => ItuTT35::Niger,
        0b1000_0001 => ItuTT35::Nigeria,
        0b1000_0010 => ItuTT35::Norway,
        0b1000_0011 => ItuTT35::Oman,
        0b1000_0100 => ItuTT35::Pakistan,
        0b1000_0101 => ItuTT35::Panama,
        0b1000_0110 => ItuTT35::PapuaNewGuinea,
        0b1000_0111 => ItuTT35::Paraguay,
        0b1000_1000 => ItuTT35::Peru,
        0b1000_1001 => ItuTT35::Philippines,
        0b1000_1010 => ItuTT35::PolandRepublicOf,
        0b1000_1011 => ItuTT35::Portugal,
        0b1000_1100 => ItuTT35::PuertoRico,
        0b1000_1101 => ItuTT35::Qatar,
        0b1000_1110 => ItuTT35::Romania,
        0b1000_1111 => ItuTT35::Rwanda,
        0b1001_0000 => ItuTT35::SaintKittsAndNevis,
        0b1001_0001 => ItuTT35::SaintCroix,
        0b1001_0010 => ItuTT35::SaintHelenaAndAscension,
        0b1001_0011 => ItuTT35::SaintLucia,
        0b1001_0100 => ItuTT35::SanMarino,
        0b1001_0101 => ItuTT35::SaintThomas,
        0b1001_0110 => ItuTT35::SaoTomeAndPrincipe,
        0b1001_0111 => ItuTT35::SaintVincentAndTheGrenadines,
        0b1001_1000 => ItuTT35::SaudiArabia,
        0b1001_1001 => ItuTT35::Senegal,
        0b1001_1010 => ItuTT35::Seychelles,
        0b1001_1011 => ItuTT35::SierraLeone,
        0b1001_1100 => ItuTT35::Singapore,
        0b1001_1101 => ItuTT35::SolomonIslands,
        0b1001_1110 => ItuTT35::Somalia,
        0b1001_1111 => ItuTT35::SouthAfrica,
        0b1010_0000 => ItuTT35::Spain,
        0b1010_0001 => ItuTT35::SriLanka,
        0b1010_0010 => ItuTT35::Sudan,
        0b1010_0011 => ItuTT35::Suriname,
        0b1010_0100 => ItuTT35::Swaziland,
        0b1010_0101 => ItuTT35::Sweden,
        0b1010_0110 => ItuTT35::Switzerland,
        0b1010_0111 => ItuTT35::Syria,
        0b1010_1000 => ItuTT35::Tanzania,
        0b1010_1001 => ItuTT35::Thailand,
        0b1010_1010 => ItuTT35::Togo,
        0b1010_1011 => ItuTT35::Tonga,
        0b1010_1100 => ItuTT35::TrinidadAndTobago,
        0b1010_1101 => ItuTT35::Tunisia,
        0b1010_1110 => ItuTT35::Turkey,
        0b1010_1111 => ItuTT35::TurksAndCaicosIslands,
        0b1011_0000 => ItuTT35::Tuvalu,
        0b1011_0001 => ItuTT35::Uganda,
        0b1011_0010 => ItuTT35::Ukraine,
        0b1011_0011 => ItuTT35::UnitedArabEmirates,
        0b1011_0100 => ItuTT35::UnitedKingdom,
        0b1011_0101 => ItuTT35::UnitedStates,
        0b1011_0110 => ItuTT35::BurkinaFaso,
        0b1011_0111 => ItuTT35::Uruguay,
        0b1011_1000 => ItuTT35::USSR,
        0b1011_1001 => ItuTT35::Vanuatu,
        0b1011_1010 => ItuTT35::VaticanCityState,
        0b1011_1011 => ItuTT35::Venezuela,
        0b1011_1100 => ItuTT35::VietNam,
        0b1011_1101 => ItuTT35::WallisAndFutuna,
        0b1011_1110 => ItuTT35::WesternSamoa,
        0b1011_1111 => ItuTT35::YemenRepublicOf(code),
        0b1100_0000 => ItuTT35::YemenRepublicOf(code),
        0b1100_0001 => ItuTT35::Yugoslavia,
        0b1100_0010 => ItuTT35::Zaire,
        0b1100_0011 => ItuTT35::Zambia,
        0b1100_0100 => ItuTT35::Zimbabwe,
        _ => ItuTT35::Unknown(code),
    }
}

/// The country for an `itu_t_t35_country_code` other than `0xFF`.
fn country_for_code(code: u8) -> (r: ItuTT35)
    ensures
        r == spec_itu_t_t35(code),
{
    match code {
        0b0000_0000 => ItuTT35::Japan,
        0b0000_0001 => ItuTT35::Albania,
        0b0000_0010 => ItuTT35::Algeria,
        0b0000_0011 => ItuTT35::AmericanSamoa,
        0b0000_0100 => ItuTT35::GermanyFederalRepublicOf(code),
        0b0000_0101 => ItuTT35::Anguilla,
        0b0000_0110 => ItuTT35::AntiguaandBarbuda,
        0b0000_0111 => ItuTT35::Argentina,
        0b0000_1000 => ItuTT35::AscensionseeSHelena,
        0b0000_1001 => ItuTT35::Australia,
        0b0000_1010 => ItuTT35::Austria,
        0b0000_1011 => ItuTT35::Bahamas,
        0b0000_1100 => ItuTT35::Bahrain,
        0b0000_1101 => ItuTT35::Bangladesh,
        0b0000_1110 => ItuTT35::Barbados,
        0b0000_1111 => ItuTT35::Belgium,
        0b0001_0000 => ItuTT35::Belize,
        0b0001_0001 => ItuTT35::BeninRepublicOf,
        0b0001_0010 => ItuTT35::Bermudas,
        0b0001_0011 => ItuTT35::BhutanKingdomOf,
        0b0001_0100 => ItuTT35::Bolivia,
        0b0001_0101 => ItuTT35::Botswana,
        0b0001_0110 => ItuTT35::Brazil,
        0b0001_0111 => ItuTT35::BritishAntarcticTerritory,
        0b0001_1000 => ItuTT35::BritishIndianOceanTerritory,
        0b0001_1001 => ItuTT35::BritishVirginIslands,
        0b0001_1010 => ItuTT35::BruneiDarussalam,
        0b0001_1011 => ItuTT35::Bulgaria,
        0b0001_1100 => ItuTT35::MyanmarUnionOf,
        0b0001_1101 => ItuTT35::Burundi,
        0b0001_1110 => ItuTT35::Byelorussia,
        0b0001_1111 => ItuTT35::Cameroon,
        0b0010_0000 => ItuTT35::Canada,
        0b0010_0001 => ItuTT35::CapeVerde,
        0b0010_0010 => ItuTT35::CaymanIslands,
        0b0010_0011 => ItuTT35::CentralAfricanRepublic,
        0b0010_0100 => ItuTT35::Chad,
        0b0010_0101 => ItuTT35::Chile,
        0b0010_0110 => ItuTT35::China,
        0b0010_0111 => ItuTT35::Colombia,
        0b0010_1000 => ItuTT35::Comoros,
        0b0010_1001 => ItuTT35::Congo,
        0b0010_1010 => ItuTT35::CookIslands,
        0b0010_1011 => ItuTT35::CostaRica,
        0b0010_1100 => ItuTT35::Cuba,
        0b0010_1101 => ItuTT35::Cyprus,
        0b0010_1110 => ItuTT35::CzechandSlovakFederalRepublic,
        0b0010_1111 => ItuTT35::Cambodia,
        0b0011_0000 => ItuTT35::DemocraticPeoplesRepublicOfKorea,
        0b0011_0001 => ItuTT35::Denmark,
        0b0011_0010 => ItuTT35::Djibouti,
        0b0011_0011 => ItuTT35::DominicanRepublic,
        0b0011_0100 => ItuTT35::Dominica,
        0b0011_0101 => ItuTT35::Ecuador,
        0b0011_0110 => ItuTT35::Egypt,
        0b0011_0111 => ItuTT35::ElSalvador,
        0b0011_1000 => ItuTT35::EquatorialGuinea,
        0b0011_1001 => ItuTT35::Ethiopia,
        0b0011_1010 => ItuTT35::FalklandIslands,
        0b0011_1011 => ItuTT35::Fiji,
        0b0011_1100 => ItuTT35::Finland,
        0b0011_1101 => ItuTT35::France,
        0b0011_1110 => ItuTT35::FrenchPolynesia,
        0b0011_1111 => ItuTT35::FrenchSouthernAndAntarcticLands,
        0b0100_0000 => ItuTT35::Gabon,
        0b0100_0001 => ItuTT35::Gambia,
        0b0100_0010 => ItuTT35::GermanyFederalRepublicOf(code),
        0b0100_0011 => ItuTT35::Angola,
        0b0100_0100 => ItuTT35::Ghana,
        0b0100_0101 => ItuTT35::Gibraltar,
        0b0100_0110 => ItuTT35::Greece,
        0b0100_0111 => ItuTT35::Grenada,
        0b0100_1000 => ItuTT35::Guam,
        0b0100_1001 => ItuTT35::Guatemala,
        0b0100_1010 => ItuTT35::Guernsey,
        0b0100_1011 => ItuTT35::Guinea,
        0b0100_1100 => ItuTT35::GuineaBissau,
        0b0100_1101 => ItuTT35::Guayana,
        0b0100_1110 => ItuTT35::Haiti,
        0b0100_1111 => ItuTT35::Honduras,
        0b0101_0000 => ItuTT35::Hongkong,
        0b0101_0001 => ItuTT35::HungaryRepublicOf,
        0b0101_0010 => ItuTT35::Iceland,
        0b0101_0011 => ItuTT35::India,
        0b0101_0100 => ItuTT35::Indonesia,
        0b0101_0101 => ItuTT35::IranIslamicRepublicOf,
        0b0101_0110 => ItuTT35::Iraq,
        0b0101_0111 => ItuTT35::Ireland,
        0b0101_1000 => ItuTT35::Israel,
        0b0101_1001 => ItuTT35::Italy,
        0b0101_1010 => ItuTT35::CotedIvoire,
        0b0101_1011 => ItuTT35::Jamaica,
        0b0101_1100 => ItuTT35::Afghanistan,
        0b0101_1101 => ItuTT35::Jersey,
        0b0101_1110 => ItuTT35::Jordan,
        0b0101_1111 => ItuTT35::Kenya,
        0b0110_0000 => ItuTT35::Kiribati,
        0b0110_0001 => ItuTT35::KoreaRepublicOf,
        0b0110_0010 => ItuTT35::Kuwait,
        0b0110_0011 => ItuTT35::LaoPeoplesDemocraticRepublic,
        0b0110_0100 => ItuTT35::Lebanon,
        0b0110_0101 => ItuTT35::Lesotho,
        0b0110_0110 => ItuTT35::Liberia,
        0b0110_0111 => ItuTT35::Libya,
        0b0110_1000 => ItuTT35::Liechtenstein,
        0b0110_1001 => ItuTT35::Luxembourg,
        0b0110_1010 => ItuTT35::Macau,
        0b0110_1011 => ItuTT35::Madagascar,
        0b0110_1100 => ItuTT35::Malaysia,
        0b0110_1101 => ItuTT35::Malawi,
        0b0110_1110 => ItuTT35::Maldives,
        0b0110_1111 => ItuTT35::Mali,
        0b0111_0000 => ItuTT35::Malta,
        0b1111_0001 => ItuTT35::Mauritania,
        0b0111_0010 => ItuTT35::Mauritius,
        0b0111_0011 => ItuTT35::Mexico,
        0b0111_0100 => ItuTT35::Monaco,
        0b0111_0101 => ItuTT35::Mongolia,
        0b0111_0110 => ItuTT35::Montserrat,
        0b0111_0111 => ItuTT35::Morocco,
        0b0111_1000 => ItuTT35::Mozambique,
        0b0111_1001 => ItuTT35::Nauru,
        0b0111_1010 => ItuTT35::Nepal,
        0b0111_1011 => ItuTT35::Netherlands,
        0b0111_1100 => ItuTT35::NetherlandsAntilles,
        0b0111_1101 => ItuTT35::NewCaledonia,
        0b0111_1110 => ItuTT35::NewZealand,
        0b0111_1111 => ItuTT35::Nicaragua,
        0b1000_0000 => ItuTT35::Niger,
        0b1000_0001 => ItuTT35::Nigeria,
        0b1000_0010 => ItuTT35::Norway,
        0b1000_0011 => ItuTT35::Oman,
        0b1000_0100 => ItuTT35::Pakistan,
        0b1000_0101 => ItuTT35::Panama,
        0b1000_0110 => ItuTT35::PapuaNewGuinea,
        0b1000_0111 => ItuTT35::Paraguay,
        0b1000_1000 => ItuTT35::Peru,
        0b1000_1001 => ItuTT35::Philippines,
        0b1000_1010 => ItuTT35::PolandRepublicOf,
        0b1000_1011 => ItuTT35::Portugal,
        0b1000_1100 => ItuTT35::PuertoRico,
        0b1000_1101 => ItuTT35::Qatar,
        0b1000_1110 => ItuTT35::Romania,
        0b1000_1111 => ItuTT35::Rwanda,
        0b1001_0000 => ItuTT35::SaintKittsAndNevis,
        0b1001_0001 => ItuTT35::SaintCroix,
        0b1001_0010 => ItuTT35::SaintHelenaAndAscension,
        0b1001_0011 => ItuTT35::SaintLucia,
        0b1001_0100 => ItuTT35::SanMarino,
        0b1001_0101 => ItuTT35::SaintThomas,
        0b1001_0110 => ItuTT35::SaoTomeAndPrincipe,
        0b1001_0111 => ItuTT35::SaintVincentAndTheGrenadines,
        0b1001_1000 => ItuTT35::SaudiArabia,
        0b1001_1001 => ItuTT35::Senegal,
        0b1001_1010 => ItuTT35::Seychelles,
        0b1001_1011 => ItuTT35::SierraLeone,
        0b1001_1100 => ItuTT35::Singapore,
        0b1001_1101 => ItuTT35::SolomonIslands,
        0b1001_1110 => ItuTT35::Somalia,
        0b1001_1111 => ItuTT35::SouthAfrica,
        0b1010_0000 => ItuTT35::Spain,
        0b1010_0001 => ItuTT35::SriLanka,
        0b1010_0010 => ItuTT35::Sudan,
        0b1010_0011 => ItuTT35::Suriname,
        0b1010_0100 => ItuTT35::Swaziland,
        0b1010_0101 => ItuTT35::Sweden,
        0b1010_0110 => ItuTT35::Switzerland,
        0b1010_0111 => ItuTT35::Syria,
        0b1010_1000 => ItuTT35::Tanzania,
        0b1010_1001 => ItuTT35::Thailand,
        0b1010_1010 => ItuTT35::Togo,
        0b1010_1011 => ItuTT35::Tonga,
        0b1010_1100 => ItuTT35::TrinidadAndTobago,
        0b1010_1101 => ItuTT35::Tunisia,
        0b1010_1110 => ItuTT35::Turkey,
        0b1010_1111 => ItuTT35::TurksAndCaicosIslands,
        0b1011_0000 => ItuTT35::Tuvalu,
        0b1011_0001 => ItuTT35::Uganda,
        0b1011_0010 => ItuTT35::Ukraine,
        0b1011_0011 => ItuTT35::UnitedArabEmirates,
        0b1011_0100 => ItuTT35::UnitedKingdom,
        0b1011_0101 => ItuTT35::UnitedStates,
        0b1011_0110 => ItuTT35::BurkinaFaso,
        0b1011_0111 => ItuTT35::Uruguay,
        0b1011_1000 => ItuTT35::USSR,
        0b1011_1001 => ItuTT35::Vanuatu,
        0b1011_1010 => ItuTT35::VaticanCityState,
        0b1011_1011 => ItuTT35::Venezuela,
        0b1011_1100 => ItuTT35::VietNam,
        0b1011_1101 => ItuTT35::WallisAndFutuna,
        0b1011_1110 => ItuTT35::WesternSamoa,
        0b1011_1111 => ItuTT35::YemenRepublicOf(code),
        0b1100_0000 => ItuTT35::YemenRepublicOf(code),
        0b1100_0001 => ItuTT35::Yugoslavia,
        0b1100_0010 => ItuTT35::Zaire,
        0b1100_0011 => ItuTT35::Zambia,
        0b1100_0100 => ItuTT35::Zimbabwe,
        _ => ItuTT35::Unknown(code),
    }
}

impl ItuTT35 {
    /// Reads the country code at the start of a `user_data_registered_itu_t_t35()` payload.
    /// Returns the country and the bytes after the country code; for the extension code
    /// `0xFF`, the extension byte is part of the returned country and of the returned bytes.
    pub fn read(buf: &[u8]) -> (r: Result<(ItuTT35, &[u8]), ItuTT35Error>)
        ensures
            buf@.len() == 0 ==> r == Err::<(ItuTT35, &[u8]), ItuTT35Error>(ItuTT35Error::NotEnoughData { expected: 1, actual: 0 }),
            buf@.len() == 1 && buf@[0] == 0xFF ==> r == Err::<(ItuTT35, &[u8]), ItuTT35Error>(
                ItuTT35Error::NotEnoughData { expected: 2, actual: 1 },
            ),
            buf@.len() >= 2 && buf@[0] == 0xFF ==> (r matches Ok((c, rest)) && c == ItuTT35::Extended(buf@[1]) && rest@ == buf@.skip(1)),
            buf@.len() >= 1 && buf@[0] != 0xFF ==> (r matches Ok((c, rest)) && c == spec_itu_t_t35(buf@[0]) && rest@ == buf@.skip(1)),
    {
        if buf.len() == 0 {
            return Err(ItuTT35Error::NotEnoughData { expected: 1, actual: 0 });
        }
        let itu_t_t35_country_code = buf[0];
        let rest = vstd::slice::slice_subrange(buf, 1, buf.len());
        if itu_t_t35_country_code == 0xFF {
            if buf.len() < 2 {
                return Err(ItuTT35Error::NotEnoughData { expected: 2, actual: buf.len() });
            }
            return Ok((ItuTT35::Extended(buf[1]), rest));
        }
        Ok((country_for_code(itu_t_t35_country_code), rest))
    }
}

/// Handles `user_data_registered_itu_t_t35()` messages; implemented by users of this library.
pub trait Register {
    fn handle(&mut self, ctx: &mut Context, country_code: ItuTT35, payload: &[u8]);
}

/// A message handed to a [`Register`]: its country and the payload bytes after the country
/// code.
pub ghost struct HandedMessage {
    pub country_code: ItuTT35,
    pub payload: Seq<u8>,
}

/// Reads `user_data_registered_itu_t_t35()` messages and hands them to a [`Register`].
pub struct UserDataRegisteredItuTT35Reader<R: Register> {
    pub register: R,
    /// Every message handed to `register` so far.
    handed: Ghost<Seq<HandedMessage>>,
}

impl<R: Register> UserDataRegisteredItuTT35Reader<R> {
    pub fn new(register: R) -> (r: UserDataRegisteredItuTT35Reader<R>)
        ensures
            r.spec_register() == register,
            r.handed() == Seq::<HandedMessage>::empty(),
    {
        UserDataRegisteredItuTT35Reader { register, handed: Ghost(Seq::empty()) }
    }

    /// Every message handed to the register so far.
    pub closed spec fn handed(&self) -> Seq<HandedMessage> {
        self.handed@
    }

    /// The register.
    pub closed spec fn spec_register(&self) -> R {
        self.register
    }

    /// Reads the country code of a message and hands the country and the rest of the payload
    /// (the bytes after the first, as [`ItuTT35::read`] returns them) to the register; a
    /// payload too short for its country code is ignored. Returns the outcome of reading the
    /// country code.
    pub fn header(&mut self, ctx: &mut Context, payload_type: HeaderType, buf: &[u8]) -> (r: Result<ItuTT35, ItuTT35Error>)
        requires
            payload_type == HeaderType::UserDataRegisteredItuTT35,
        ensures
            buf@.len() == 0 ==> r == Err::<ItuTT35, ItuTT35Error>(ItuTT35Error::NotEnoughData { expected: 1, actual: 0 }),
            buf@.len() == 1 && buf@[0] == 0xFF ==> r == Err::<ItuTT35, ItuTT35Error>(
                ItuTT35Error::NotEnoughData { expected: 2, actual: 1 },
            ),
            buf@.len() >= 2 && buf@[0] == 0xFF ==> r == Ok::<ItuTT35, ItuTT35Error>(ItuTT35::Extended(buf@[1])),
            buf@.len() >= 1 && buf@[0] != 0xFF ==> r == Ok::<ItuTT35, ItuTT35Error>(spec_itu_t_t35(buf@[0])),
            match r {
                Ok(c) => final(self).handed() == old(self).handed().push(HandedMessage { country_code: c, payload: buf@.skip(1) }),
                Err(_) => final(self).handed() == old(self).handed() && final(self).spec_register() == old(self).spec_register()
                    && *final(ctx) == *old(ctx),
            },
    {
        match ItuTT35::read(buf) {
            Ok((country_code, payload)) => {
                self.register.handle(ctx, country_code, payload);
                proof {
                    self.handed@ = self.handed@.push(HandedMessage { country_code, payload: payload@ });
                }
                Ok(country_code)
            },
            Err(e) => Err(e),
        }
    }
}

} // verus!

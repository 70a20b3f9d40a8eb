use vstd::prelude::*;

verus! {

/// The countries of the host, each with the numeric code the host knows it by.
#[allow(non_camel_case_types)]
#[derive(Debug, Clone, Copy, PartialEq, Eq, Structural)]
pub enum Country {
    ABKHAZIA,
    AGGRESSORS,
    ALGERIA,
    ARGENTINA,
    AUSTRALIA,
    AUSTRIA,
    BAHRAIN,
    BELARUS,
    BELGIUM,
    BOLIVIA,
    BRAZIL,
    BULGARIA,
    CANADA,
    CHEZH_REPUBLIC,
    CHILE,
    CHINA,
    CJTF_BLUE,
    CJTF_RED,
    CROATIA,
    CUBA,
    CYPRUS,
    DENMARK,
    ECUADOR,
    EGYPT,
    ETHIOPIA,
    FINLAND,
    FRANCE,
    GDR,
    GEORGIA,
    GERMANY,
    GHANA,
    GREECE,
    HONDURAS,
    HUNGARY,
    INDIA,
    INDONESIA,
    INSURGENTS,
    IRAN,
    IRAQ,
    ISRAEL,
    ITALIAN_SOCIAL_REPUBLIC,
    ITALY,
    JAPAN,
    JORDAN,
    KAZAKHSTAN,
    KUWAIT,
    LEBANON,
    LIBYA,
    MALAYSIA,
    MEXICO,
    MOROCCO,
    NIGERIA,
    NORTH_KOREA,
    NORWAY,
    OMAN,
    PAKISTAN,
    PERU,
    PHILIPPINES,
    POLAND,
    PORTUGAL,
    QATAR,
    ROMANIA,
    RUSSIA,
    SAUDI_ARABIA,
    SERBIA,
    SLOVAKIA,
    SLOVENIA,
    SOUTH_AFRICA,
    SOUTH_KOREA,
    SOUTH_OSETIA,
    SPAIN,
    SUDAN,
    SWEDEN,
    SWITZERLAND,
    SYRIA,
    THAILAND,
    THE_NETHERLANDS,
    THIRDREICH,
    TUNISIA,
    TURKEY,
    UK,
    UKRAINE,
    UNITED_ARAB_EMIRATES,
    UN_PEACEKEEPERS,
    USA,
    USSR,
    VENEZUELA,
    VIETNAM,
    YEMEN,
    YUGOSLAVIA,
}

/// The host's code of a country.
pub open spec fn country_code(c: Country) -> u8 {
    match c {
        Country::ABKHAZIA => 18,
        Country::AGGRESSORS => 7,
        Country::ALGERIA => 70,
        Country::ARGENTINA => 83,
        Country::AUSTRALIA => 21,
        Country::AUSTRIA => 23,
        Country::BAHRAIN => 65,
        Country::BELARUS => 24,
        Country::BELGIUM => 11,
        Country::BOLIVIA => 86,
        Country::BRAZIL => 64,
        Country::BULGARIA => 25,
        Country::CANADA => 8,
        Country::CHEZH_REPUBLIC => 26,
        Country::CHILE => 63,
        Country::CHINA => 27,
        Country::CJTF_BLUE => 80,
        Country::CJTF_RED => 81,
        Country::CROATIA => 28,
        Country::CUBA => 76,
        Country::CYPRUS => 84,
        Country::DENMARK => 13,
        Country::ECUADOR => 90,
        Country::EGYPT => 29,
        Country::ETHIOPIA => 62,
        Country::FINLAND => 30,
        Country::FRANCE => 5,
        Country::GDR => 78,
        Country::GEORGIA => 16,
        Country::GERMANY => 6,
        Country::GHANA => 87,
        Country::GREECE => 31,
        Country::HONDURAS => 61,
        Country::HUNGARY => 32,
        Country::INDIA => 33,
        Country::INDONESIA => 60,
        Country::INSURGENTS => 17,
        Country::IRAN => 34,
        Country::IRAQ => 35,
        Country::ISRAEL => 15,
        Country::ITALIAN_SOCIAL_REPUBLIC => 69,
        Country::ITALY => 20,
        Country::JAPAN => 36,
        Country::JORDAN => 59,
        Country::KAZAKHSTAN => 37,
        Country::KUWAIT => 71,
        Country::LEBANON => 79,
        Country::LIBYA => 58,
        Country::MALAYSIA => 57,
        Country::MEXICO => 56,
        Country::MOROCCO => 55,
        Country::NIGERIA => 88,
        Country::NORTH_KOREA => 38,
        Country::NORWAY => 12,
        Country::OMAN => 73,
        Country::PAKISTAN => 39,
        Country::PERU => 89,
        Country::PHILIPPINES => 54,
        Country::POLAND => 40,
        Country::PORTUGAL => 77,
        Country::QATAR => 72,
        Country::ROMANIA => 41,
        Country::RUSSIA => 0,
        Country::SAUDI_ARABIA => 42,
        Country::SERBIA => 43,
        Country::SLOVAKIA => 44,
        Country::SLOVENIA => 85,
        Country::SOUTH_AFRICA => 75,
        Country::SOUTH_KOREA => 45,
        Country::SOUTH_OSETIA => 19,
        Country::SPAIN => 9,
        Country::SUDAN => 53,
        Country::SWEDEN => 46,
        Country::SWITZERLAND => 22,
        Country::SYRIA => 47,
        Country::THAILAND => 52,
        Country::THE_NETHERLANDS => 10,
        Country::THIRDREICH => 66,
        Country::TUNISIA => 51,
        Country::TURKEY => 3,
        Country::UK => 4,
        Country::UKRAINE => 1,
        Country::UNITED_ARAB_EMIRATES => 74,
        Country::UN_PEACEKEEPERS => 82,
        Country::USA => 2,
        Country::USSR => 68,
        Country::VENEZUELA => 50,
        Country::VIETNAM => 49,
        Country::YEMEN => 48,
        Country::YUGOSLAVIA => 67,
    }
}

/// The country with code `n`, if any.
pub open spec fn country_of(n: u8) -> Option<Country> {
    if n == 0 {
        Some(Country::RUSSIA)
    } else if n == 1 {
        Some(Country::UKRAINE)
    } else if n == 2 {
        Some(Country::USA)
    } else if n == 3 {
        Some(Country::TURKEY)
    } else if n == 4 {
        Some(Country::UK)
    } else if n == 5 {
        Some(Country::FRANCE)
    } else if n == 6 {
        Some(Country::GERMANY)
    } else if n == 7 {
        Some(Country::AGGRESSORS)
    } else if n == 8 {
        Some(Country::CANADA)
    } else if n == 9 {
        Some(Country::SPAIN)
    } else if n == 10 {
        Some(Country::THE_NETHERLANDS)
    } else if n == 11 {
        Some(Country::BELGIUM)
    } else if n == 12 {
        Some(Country::NORWAY)
    } else if n == 13 {
        Some(Country::DENMARK)
    } else if n == 15 {
        Some(Country::ISRAEL)
    } else if n == 16 {
        Some(Country::GEORGIA)
    } else if n == 17 {
        Some(Country::INSURGENTS)
    } else if n == 18 {
        Some(Country::ABKHAZIA)
    } else if n == 19 {
        Some(Country::SOUTH_OSETIA)
    } else if n == 20 {
        Some(Country::ITALY)
    } else if n == 21 {
        Some(Country::AUSTRALIA)
    } else if n == 22 {
        Some(Country::SWITZERLAND)
    } else if n == 23 {
        Some(Country::AUSTRIA)
    } else if n == 24 {
        Some(Country::BELARUS)
    } else if n == 25 {
        Some(Country::BULGARIA)
    } else if n == 26 {
        Some(Country::CHEZH_REPUBLIC)
    } else if n == 27 {
        Some(Country::CHINA)
    } else if n == 28 {
        Some(Country::CROATIA)
    } else if n == 29 {
        Some(Country::EGYPT)
    } else if n == 30 {
        Some(Country::FINLAND)
    } else if n == 31 {
        Some(Country::GREECE)
    } else if n == 32 {
        Some(Country::HUNGARY)
    } else if n == 33 {
        Some(Country::INDIA)
    } else if n == 34 {
        Some(Country::IRAN)
    } else if n == 35 {
        Some(Country::IRAQ)
    } else if n == 36 {
        Some(Country::JAPAN)
    } else if n == 37 {
        Some(Country::KAZAKHSTAN)
    } else if n == 38 {
        Some(Country::NORTH_KOREA)
    } else if n == 39 {
        Some(Country::PAKISTAN)
    } else if n == 40 {
        Some(Country::POLAND)
    } else if n == 41 {
        Some(Country::ROMANIA)
    } else if n == 42 {
        Some(Country::SAUDI_ARABIA)
    } else if n == 43 {
        Some(Country::SERBIA)
    } else if n == 44 {
        Some(Country::SLOVAKIA)
    } else if n == 45 {
        Some(Country::SOUTH_KOREA)
    } else if n == 46 {
        Some(Country::SWEDEN)
    } else if n == 47 {
        Some(Country::SYRIA)
    } else if n == 48 {
        Some(Country::YEMEN)
    } else if n == 49 {
        Some(Country::VIETNAM)
    } else if n == 50 {
        Some(Country::VENEZUELA)
    } else if n == 51 {
        Some(Country::TUNISIA)
    } else if n == 52 {
        Some(Country::THAILAND)
    } else if n == 53 {
        Some(Country::SUDAN)
    } else if n == 54 {
        Some(Country::PHILIPPINES)
    } else if n == 55 {
        Some(Country::MOROCCO)
    } else if n == 56 {
        Some(Country::MEXICO)
    } else if n == 57 {
        Some(Country::MALAYSIA)
    } else if n == 58 {
        Some(Country::LIBYA)
    } else if n == 59 {
        Some(Country::JORDAN)
    } else if n == 60 {
        Some(Country::INDONESIA)
    } else if n == 61 {
        Some(Country::HONDURAS)
    } else if n == 62 {
        Some(Country::ETHIOPIA)
    } else if n == 63 {
        Some(Country::CHILE)
    } else if n == 64 {
        Some(Country::BRAZIL)
    } else if n == 65 {
        Some(Country::BAHRAIN)
    } else if n == 66 {
        Some(Country::THIRDREICH)
    } else if n == 67 {
        Some(Country::YUGOSLAVIA)
    } else if n == 68 {
        Some(Country::USSR)
    } else if n == 69 {
        Some(Country::ITALIAN_SOCIAL_REPUBLIC)
    } else if n == 70 {
        Some(Country::ALGERIA)
    } else if n == 71 {
        Some(Country::KUWAIT)
    } else if n == 72 {
        Some(Country::QATAR)
    } else if n == 73 {
        Some(Country::OMAN)
    } else if n == 74 {
        Some(Country::UNITED_ARAB_EMIRATES)
    } else if n == 75 {
        Some(Country::SOUTH_AFRICA)
    } else if n == 76 {
        Some(Country::CUBA)
    } else if n == 77 {
        Some(Country::PORTUGAL)
    } else if n == 78 {
        Some(Country::GDR)
    } else if n == 79 {
        Some(Country::LEBANON)
    } else if n == 80 {
        Some(Country::CJTF_BLUE)
    } else if n == 81 {
        Some(Country::CJTF_RED)
    } else if n == 82 {
        Some(Country::UN_PEACEKEEPERS)
    } else if n == 83 {
        Some(Country::ARGENTINA)
    } else if n == 84 {
        Some(Country::CYPRUS)
    } else if n == 85 {
        Some(Country::SLOVENIA)
    } else if n == 86 {
        Some(Country::BOLIVIA)
    } else if n == 87 {
        Some(Country::GHANA)
    } else if n == 88 {
        Some(Country::NIGERIA)
    } else if n == 89 {
        Some(Country::PERU)
    } else if n == 90 {
        Some(Country::ECUADOR)
    } else {
        None
    }
}

impl Country {
    /// The host's code of this country.
    pub fn code(&self) -> (r: u8)
        ensures
            r == country_code(*self),
    {
        match self {
            Country::ABKHAZIA => 18,
            Country::AGGRESSORS => 7,
            Country::ALGERIA => 70,
            Country::ARGENTINA => 83,
            Country::AUSTRALIA => 21,
            Country::AUSTRIA => 23,
            Country::BAHRAIN => 65,
            Country::BELARUS => 24,
            Country::BELGIUM => 11,
            Country::BOLIVIA => 86,
            Country::BRAZIL => 64,
            Country::BULGARIA => 25,
            Country::CANADA => 8,
            Country::CHEZH_REPUBLIC => 26,
            Country::CHILE => 63,
            Country::CHINA => 27,
            Country::CJTF_BLUE => 80,
            Country::CJTF_RED => 81,
            Country::CROATIA => 28,
            Country::CUBA => 76,
            Country::CYPRUS => 84,
            Country::DENMARK => 13,
            Country::ECUADOR => 90,
            Country::EGYPT => 29,
            Country::ETHIOPIA => 62,
            Country::FINLAND => 30,
            Country::FRANCE => 5,
            Country::GDR => 78,
            Country::GEORGIA => 16,
            Country::GERMANY => 6,
            Country::GHANA => 87,
            Country::GREECE => 31,
            Country::HONDURAS => 61,
            Country::HUNGARY => 32,
            Country::INDIA => 33,
            Country::INDONESIA => 60,
            Country::INSURGENTS => 17,
            Country::IRAN => 34,
            Country::IRAQ => 35,
            Country::ISRAEL => 15,
            Country::ITALIAN_SOCIAL_REPUBLIC => 69,
            Country::ITALY => 20,
            Country::JAPAN => 36,
            Country::JORDAN => 59,
            Country::KAZAKHSTAN => 37,
            Country::KUWAIT => 71,
            Country::LEBANON => 79,
            Country::LIBYA => 58,
            Country::MALAYSIA => 57,
            Country::MEXICO => 56,
            Country::MOROCCO => 55,
            Country::NIGERIA => 88,
            Country::NORTH_KOREA => 38,
            Country::NORWAY => 12,
            Country::OMAN => 73,
            Country::PAKISTAN => 39,
            Country::PERU => 89,
            Country::PHILIPPINES => 54,
            Country::POLAND => 40,
            Country::PORTUGAL => 77,
            Country::QATAR => 72,
            Country::ROMANIA => 41,
            Country::RUSSIA => 0,
            Country::SAUDI_ARABIA => 42,
            Country::SERBIA => 43,
            Country::SLOVAKIA => 44,
            Country::SLOVENIA => 85,
            Country::SOUTH_AFRICA => 75,
            Country::SOUTH_KOREA => 45,
            Country::SOUTH_OSETIA => 19,
            Country::SPAIN => 9,
            Country::SUDAN => 53,
            Country::SWEDEN => 46,
            Country::SWITZERLAND => 22,
            Country::SYRIA => 47,
            Country::THAILAND => 52,
            Country::THE_NETHERLANDS => 10,
            Country::THIRDREICH => 66,
            Country::TUNISIA => 51,
            Country::TURKEY => 3,
            Country::UK => 4,
            Country::UKRAINE => 1,
            Country::UNITED_ARAB_EMIRATES => 74,
            Country::UN_PEACEKEEPERS => 82,
            Country::USA => 2,
            Country::USSR => 68,
            Country::VENEZUELA => 50,
            Country::VIETNAM => 49,
            Country::YEMEN => 48,
            Country::YUGOSLAVIA => 67,
        }
    }

    /// The country that the host's code `n` stands for; `None` for a code no country has.
    pub fn from_code(n: u8) -> (r: Option<Country>)
        ensures
            r == country_of(n),
    {
        match n {
            0 => Some(Country::RUSSIA),
            1 => Some(Country::UKRAINE),
            2 => Some(Country::USA),
            3 => Some(Country::TURKEY),
            4 => Some(Country::UK),
            5 => Some(Country::FRANCE),
            6 => Some(Country::GERMANY),
            7 => Some(Country::AGGRESSORS),
            8 => Some(Country::CANADA),
            9 => Some(Country::SPAIN),
            10 => Some(Country::THE_NETHERLANDS),
            11 => Some(Country::BELGIUM),
            12 => Some(Country::NORWAY),
            13 => Some(Country::DENMARK),
            15 => Some(Country::ISRAEL),
            16 => Some(Country::GEORGIA),
            17 => Some(Country::INSURGENTS),
            18 => Some(Country::ABKHAZIA),
            19 => Some(Country::SOUTH_OSETIA),
            20 => Some(Country::ITALY),
            21 => Some(Country::AUSTRALIA),
            22 => Some(Country::SWITZERLAND),
            23 => Some(Country::AUSTRIA),
            24 => Some(Country::BELARUS),
            25 => Some(Country::BULGARIA),
            26 => Some(Country::CHEZH_REPUBLIC),
            27 => Some(Country::CHINA),
            28 => Some(Country::CROATIA),
            29 => Some(Country::EGYPT),
            30 => Some(Country::FINLAND),
            31 => Some(Country::GREECE),
            32 => Some(Country::HUNGARY),
            33 => Some(Country::INDIA),
            34 => Some(Country::IRAN),
            35 => Some(Country::IRAQ),
            36 => Some(Country::JAPAN),
            37 => Some(Country::KAZAKHSTAN),
            38 => Some(Country::NORTH_KOREA),
            39 => Some(Country::PAKISTAN),
            40 => Some(Country::POLAND),
            41 => Some(Country::ROMANIA),
            42 => Some(Country::SAUDI_ARABIA),
            43 => Some(Country::SERBIA),
            44 => Some(Country::SLOVAKIA),
            45 => Some(Country::SOUTH_KOREA),
            46 => Some(Country::SWEDEN),
            47 => Some(Country::SYRIA),
            48 => Some(Country::YEMEN),
            49 => Some(Country::VIETNAM),
            50 => Some(Country::VENEZUELA),
            51 => Some(Country::TUNISIA),
            52 => Some(Country::THAILAND),
            53 => Some(Country::SUDAN),
            54 => Some(Country::PHILIPPINES),
            55 => Some(Country::MOROCCO),
            56 => Some(Country::MEXICO),
            57 => Some(Country::MALAYSIA),
            58 => Some(Country::LIBYA),
            59 => Some(Country::JORDAN),
            60 => Some(Country::INDONESIA),
            61 => Some(Country::HONDURAS),
            62 => Some(Country::ETHIOPIA),
            63 => Some(Country::CHILE),
            64 => Some(Country::BRAZIL),
            65 => Some(Country::BAHRAIN),
            66 => Some(Country::THIRDREICH),
            67 => Some(Country::YUGOSLAVIA),
            68 => Some(Country::USSR),
            69 => Some(Country::ITALIAN_SOCIAL_REPUBLIC),
            70 => Some(Country::ALGERIA),
            71 => Some(Country::KUWAIT),
            72 => Some(Country::QATAR),
            73 => Some(Country::OMAN),
            74 => Some(Country::UNITED_ARAB_EMIRATES),
            75 => Some(Country::SOUTH_AFRICA),
            76 => Some(Country::CUBA),
            77 => Some(Country::PORTUGAL),
            78 => Some(Country::GDR),
            79 => Some(Country::LEBANON),
            80 => Some(Country::CJTF_BLUE),
            81 => Some(Country::CJTF_RED),
            82 => Some(Country::UN_PEACEKEEPERS),
            83 => Some(Country::ARGENTINA),
            84 => Some(Country::CYPRUS),
            85 => Some(Country::SLOVENIA),
            86 => Some(Country::BOLIVIA),
            87 => Some(Country::GHANA),
            88 => Some(Country::NIGERIA),
            89 => Some(Country::PERU),
            90 => Some(Country::ECUADOR),
            _ => None,
        }
    }
}

/// Codes identify countries: reading back the code of a country gives that country, and a code
/// that reads back as a country is that country's code.
pub proof fn country_code_round_trip(c: Country, n: u8)
    ensures
        country_of(country_code(c)) == Some(c),
        country_of(n) matches Some(d) ==> country_code(d) == n,
{
}

} // verus!

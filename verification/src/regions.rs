//! Region translation for the Vultr adapter: every canonical region
//! token maps to the provider-native three-letter code and back, a
//! bijection on the known regions.

use vstd::prelude::*;

verus! {

#[derive(Clone, Copy, Debug, PartialEq, Eq, Structural)]
pub enum Asia {
    Tokyo,
    Osaka,
    Seoul,
    Singapore,
    Mumbai,
    TelAviv,
    Bangalore,
    Delhi,
}

#[derive(Clone, Copy, Debug, PartialEq, Eq, Structural)]
pub enum Australia {
    Sydney,
    Melbourne,
}

#[derive(Clone, Copy, Debug, PartialEq, Eq, Structural)]
pub enum Europe {
    Amsterdam,
    London,
    Frankfurt,
    Paris,
    Warsaw,
    Madrid,
    Stockholm,
}

#[derive(Clone, Copy, Debug, PartialEq, Eq, Structural)]
pub enum NorthAmerica {
    NewJersey,
    Chicago,
    Dallas,
    Seattle,
    LosAngeles,
    Atlanta,
    SiliconValley,
    Toronto,
    Miami,
    MexicoCity,
    Honolulu,
}

#[derive(Clone, Copy, Debug, PartialEq, Eq, Structural)]
pub enum SouthAmerica {
    SaoPaulo,
    Santiago,
}

#[derive(Clone, Copy, Debug, PartialEq, Eq, Structural)]
pub enum Africa {
    Johannesburg,
}

/// A region the provider offers, grouped by continent.
#[derive(Clone, Copy, Debug, PartialEq, Eq, Structural)]
pub enum Region {
    Asia(Asia),
    Australia(Australia),
    Europe(Europe),
    NorthAmerica(NorthAmerica),
    SouthAmerica(SouthAmerica),
    Africa(Africa),
    Unknown,
}

/// The provider-native code of a region.  `Unknown` renders as the
/// word `Unknown`.
pub open spec fn spec_code(r: Region) -> Seq<char> {
    match r {
        Region::Asia(Asia::Tokyo) => seq!['n', 'r', 't'],
        Region::Asia(Asia::Osaka) => seq!['i', 't', 'm'],
        Region::Asia(Asia::Seoul) => seq!['i', 'c', 'n'],
        Region::Asia(Asia::Singapore) => seq!['s', 'g', 'p'],
        Region::Asia(Asia::Mumbai) => seq!['b', 'o', 'm'],
        Region::Asia(Asia::TelAviv) => seq!['t', 'l', 'v'],
        Region::Asia(Asia::Bangalore) => seq!['b', 'l', 'r'],
        Region::Asia(Asia::Delhi) => seq!['d', 'e', 'l'],
        Region::Australia(Australia::Sydney) => seq!['s', 'y', 'd'],
        Region::Australia(Australia::Melbourne) => seq!['m', 'e', 'l'],
        Region::Europe(Europe::Amsterdam) => seq!['a', 'm', 's'],
        Region::Europe(Europe::London) => seq!['l', 'h', 'r'],
        Region::Europe(Europe::Frankfurt) => seq!['f', 'r', 'a'],
        Region::Europe(Europe::Paris) => seq!['c', 'd', 'g'],
        Region::Europe(Europe::Warsaw) => seq!['w', 'a', 'w'],
        Region::Europe(Europe::Madrid) => seq!['m', 'a', 'd'],
        Region::Europe(Europe::Stockholm) => seq!['s', 't', 'o'],
        Region::NorthAmerica(NorthAmerica::NewJersey) => seq!['e', 'w', 'r'],
        Region::NorthAmerica(NorthAmerica::Chicago) => seq!['o', 'r', 'd'],
        Region::NorthAmerica(NorthAmerica::Dallas) => seq!['d', 'f', 'w'],
        Region::NorthAmerica(NorthAmerica::Seattle) => seq!['s', 'e', 'a'],
        Region::NorthAmerica(NorthAmerica::LosAngeles) => seq!['l', 'a', 'x'],
        Region::NorthAmerica(NorthAmerica::Atlanta) => seq!['a', 't', 'l'],
        Region::NorthAmerica(NorthAmerica::SiliconValley) => seq!['s', 'j', 'c'],
        Region::NorthAmerica(NorthAmerica::Toronto) => seq!['y', 't', 'o'],
        Region::NorthAmerica(NorthAmerica::Miami) => seq!['m', 'i', 'a'],
        Region::NorthAmerica(NorthAmerica::MexicoCity) => seq!['m', 'e', 'x'],
        Region::NorthAmerica(NorthAmerica::Honolulu) => seq!['h', 'n', 'l'],
        Region::SouthAmerica(SouthAmerica::SaoPaulo) => seq!['s', 'a', 'o'],
        Region::SouthAmerica(SouthAmerica::Santiago) => seq!['s', 'c', 'l'],
        Region::Africa(Africa::Johannesburg) => seq!['j', 'n', 'b'],
        Region::Unknown => seq!['U', 'n', 'k', 'n', 'o', 'w', 'n'],
    }
}

/// The region a three-letter code names, if any.
pub open spec fn spec_region_of_code3(c0: char, c1: char, c2: char) -> Option<Region> {
    match (c0, c1, c2) {
        ('n', 'r', 't') => Some(Region::Asia(Asia::Tokyo)),
        ('i', 't', 'm') => Some(Region::Asia(Asia::Osaka)),
        ('i', 'c', 'n') => Some(Region::Asia(Asia::Seoul)),
        ('s', 'g', 'p') => Some(Region::Asia(Asia::Singapore)),
        ('b', 'o', 'm') => Some(Region::Asia(Asia::Mumbai)),
        ('t', 'l', 'v') => Some(Region::Asia(Asia::TelAviv)),
        ('b', 'l', 'r') => Some(Region::Asia(Asia::Bangalore)),
        ('d', 'e', 'l') => Some(Region::Asia(Asia::Delhi)),
        ('s', 'y', 'd') => Some(Region::Australia(Australia::Sydney)),
        ('m', 'e', 'l') => Some(Region::Australia(Australia::Melbourne)),
        ('a', 'm', 's') => Some(Region::Europe(Europe::Amsterdam)),
        ('l', 'h', 'r') => Some(Region::Europe(Europe::London)),
        ('f', 'r', 'a') => Some(Region::Europe(Europe::Frankfurt)),
        ('c', 'd', 'g') => Some(Region::Europe(Europe::Paris)),
        ('w', 'a', 'w') => Some(Region::Europe(Europe::Warsaw)),
        ('m', 'a', 'd') => Some(Region::Europe(Europe::Madrid)),
        ('s', 't', 'o') => Some(Region::Europe(Europe::Stockholm)),
        ('e', 'w', 'r') => Some(Region::NorthAmerica(NorthAmerica::NewJersey)),
        ('o', 'r', 'd') => Some(Region::NorthAmerica(NorthAmerica::Chicago)),
        ('d', 'f', 'w') => Some(Region::NorthAmerica(NorthAmerica::Dallas)),
        ('s', 'e', 'a') => Some(Region::NorthAmerica(NorthAmerica::Seattle)),
        ('l', 'a', 'x') => Some(Region::NorthAmerica(NorthAmerica::LosAngeles)),
        ('a', 't', 'l') => Some(Region::NorthAmerica(NorthAmerica::Atlanta)),
        ('s', 'j', 'c') => Some(Region::NorthAmerica(NorthAmerica::SiliconValley)),
        ('y', 't', 'o') => Some(Region::NorthAmerica(NorthAmerica::Toronto)),
        ('m', 'i', 'a') => Some(Region::NorthAmerica(NorthAmerica::Miami)),
        ('m', 'e', 'x') => Some(Region::NorthAmerica(NorthAmerica::MexicoCity)),
        ('h', 'n', 'l') => Some(Region::NorthAmerica(NorthAmerica::Honolulu)),
        ('s', 'a', 'o') => Some(Region::SouthAmerica(SouthAmerica::SaoPaulo)),
        ('s', 'c', 'l') => Some(Region::SouthAmerica(SouthAmerica::Santiago)),
        ('j', 'n', 'b') => Some(Region::Africa(Africa::Johannesburg)),
        _ => None,
    }
}

/// The region a code string names: a known three-letter code, or the
/// word `unknown`.
pub open spec fn spec_from_code(s: Seq<char>) -> Option<Region> {
    if s.len() == 3 {
        spec_region_of_code3(s[0], s[1], s[2])
    } else if s =~= seq!['u', 'n', 'k', 'n', 'o', 'w', 'n'] {
        Some(Region::Unknown)
    } else {
        None
    }
}

impl Region {
    /// Renders the region as its provider-native code.
    pub fn code(&self) -> (c: String)
        ensures
            c@ == spec_code(*self),
    {
        let lit: &'static str = match self {
            Region::Asia(Asia::Tokyo) => "nrt",
            Region::Asia(Asia::Osaka) => "itm",
            Region::Asia(Asia::Seoul) => "icn",
            Region::Asia(Asia::Singapore) => "sgp",
            Region::Asia(Asia::Mumbai) => "bom",
            Region::Asia(Asia::TelAviv) => "tlv",
            Region::Asia(Asia::Bangalore) => "blr",
            Region::Asia(Asia::Delhi) => "del",
            Region::Australia(Australia::Sydney) => "syd",
            Region::Australia(Australia::Melbourne) => "mel",
            Region::Europe(Europe::Amsterdam) => "ams",
            Region::Europe(Europe::London) => "lhr",
            Region::Europe(Europe::Frankfurt) => "fra",
            Region::Europe(Europe::Paris) => "cdg",
            Region::Europe(Europe::Warsaw) => "waw",
            Region::Europe(Europe::Madrid) => "mad",
            Region::Europe(Europe::Stockholm) => "sto",
            Region::NorthAmerica(NorthAmerica::NewJersey) => "ewr",
            Region::NorthAmerica(NorthAmerica::Chicago) => "ord",
            Region::NorthAmerica(NorthAmerica::Dallas) => "dfw",
            Region::NorthAmerica(NorthAmerica::Seattle) => "sea",
            Region::NorthAmerica(NorthAmerica::LosAngeles) => "lax",
            Region::NorthAmerica(NorthAmerica::Atlanta) => "atl",
            Region::NorthAmerica(NorthAmerica::SiliconValley) => "sjc",
            Region::NorthAmerica(NorthAmerica::Toronto) => "yto",
            Region::NorthAmerica(NorthAmerica::Miami) => "mia",
            Region::NorthAmerica(NorthAmerica::MexicoCity) => "mex",
            Region::NorthAmerica(NorthAmerica::Honolulu) => "hnl",
            Region::SouthAmerica(SouthAmerica::SaoPaulo) => "sao",
            Region::SouthAmerica(SouthAmerica::Santiago) => "scl",
            Region::Africa(Africa::Johannesburg) => "jnb",
            Region::Unknown => "Unknown",
        };
        proof {
            reveal_strlit("nrt");
            reveal_strlit("itm");
            reveal_strlit("icn");
            reveal_strlit("sgp");
            reveal_strlit("bom");
            reveal_strlit("tlv");
            reveal_strlit("blr");
            reveal_strlit("del");
            reveal_strlit("syd");
            reveal_strlit("mel");
            reveal_strlit("ams");
            reveal_strlit("lhr");
            reveal_strlit("fra");
            reveal_strlit("cdg");
            reveal_strlit("waw");
            reveal_strlit("mad");
            reveal_strlit("sto");
            reveal_strlit("ewr");
            reveal_strlit("ord");
            reveal_strlit("dfw");
            reveal_strlit("sea");
            reveal_strlit("lax");
            reveal_strlit("atl");
            reveal_strlit("sjc");
            reveal_strlit("yto");
            reveal_strlit("mia");
            reveal_strlit("mex");
            reveal_strlit("hnl");
            reveal_strlit("sao");
            reveal_strlit("scl");
            reveal_strlit("jnb");
            reveal_strlit("Unknown");
            assert(lit@ =~= spec_code(*self));
        }
        lit.to_owned()
    }

    /// Parses a provider-native code; unknown codes are refused.
    pub fn from_code(code: &str) -> (r: Result<Region, &'static str>)
        ensures
            (r is Ok) == (spec_from_code(code@) is Some),
            r matches Ok(region) ==> spec_from_code(code@) == Some(region),
    {
        let n = code.unicode_len();
        if n == 3 {
            let c0 = code.get_char(0);
            let c1 = code.get_char(1);
            let c2 = code.get_char(2);
            let found: Option<Region> = match (c0, c1, c2) {
                ('n', 'r', 't') => Some(Region::Asia(Asia::Tokyo)),
                ('i', 't', 'm') => Some(Region::Asia(Asia::Osaka)),
                ('i', 'c', 'n') => Some(Region::Asia(Asia::Seoul)),
                ('s', 'g', 'p') => Some(Region::Asia(Asia::Singapore)),
                ('b', 'o', 'm') => Some(Region::Asia(Asia::Mumbai)),
                ('t', 'l', 'v') => Some(Region::Asia(Asia::TelAviv)),
                ('b', 'l', 'r') => Some(Region::Asia(Asia::Bangalore)),
                ('d', 'e', 'l') => Some(Region::Asia(Asia::Delhi)),
                ('s', 'y', 'd') => Some(Region::Australia(Australia::Sydney)),
                ('m', 'e', 'l') => Some(Region::Australia(Australia::Melbourne)),
                ('a', 'm', 's') => Some(Region::Europe(Europe::Amsterdam)),
                ('l', 'h', 'r') => Some(Region::Europe(Europe::London)),
                ('f', 'r', 'a') => Some(Region::Europe(Europe::Frankfurt)),
                ('c', 'd', 'g') => Some(Region::Europe(Europe::Paris)),
                ('w', 'a', 'w') => Some(Region::Europe(Europe::Warsaw)),
                ('m', 'a', 'd') => Some(Region::Europe(Europe::Madrid)),
                ('s', 't', 'o') => Some(Region::Europe(Europe::Stockholm)),
                ('e', 'w', 'r') => Some(Region::NorthAmerica(NorthAmerica::NewJersey)),
                ('o', 'r', 'd') => Some(Region::NorthAmerica(NorthAmerica::Chicago)),
                ('d', 'f', 'w') => Some(Region::NorthAmerica(NorthAmerica::Dallas)),
                ('s', 'e', 'a') => Some(Region::NorthAmerica(NorthAmerica::Seattle)),
                ('l', 'a', 'x') => Some(Region::NorthAmerica(NorthAmerica::LosAngeles)),
                ('a', 't', 'l') => Some(Region::NorthAmerica(NorthAmerica::Atlanta)),
                ('s', 'j', 'c') => Some(Region::NorthAmerica(NorthAmerica::SiliconValley)),
                ('y', 't', 'o') => Some(Region::NorthAmerica(NorthAmerica::Toronto)),
                ('m', 'i', 'a') => Some(Region::NorthAmerica(NorthAmerica::Miami)),
                ('m', 'e', 'x') => Some(Region::NorthAmerica(NorthAmerica::MexicoCity)),
                ('h', 'n', 'l') => Some(Region::NorthAmerica(NorthAmerica::Honolulu)),
                ('s', 'a', 'o') => Some(Region::SouthAmerica(SouthAmerica::SaoPaulo)),
                ('s', 'c', 'l') => Some(Region::SouthAmerica(SouthAmerica::Santiago)),
                ('j', 'n', 'b') => Some(Region::Africa(Africa::Johannesburg)),
                _ => None,
            };
            match found {
                Some(region) => Ok(region),
                None => Err("Unknown region code"),
            }
        } else if n == 7 {
            let c0 = code.get_char(0);
            let c1 = code.get_char(1);
            let c2 = code.get_char(2);
            let c3 = code.get_char(3);
            let c4 = code.get_char(4);
            let c5 = code.get_char(5);
            let c6 = code.get_char(6);
            if c0 == 'u' && c1 == 'n' && c2 == 'k' && c3 == 'n' && c4 == 'o' && c5 == 'w' && c6
                == 'n' {
                proof {
                    assert(code@ =~= seq!['u', 'n', 'k', 'n', 'o', 'w', 'n']);
                }
                Ok(Region::Unknown)
            } else {
                proof {
                    assert(!(code@ =~= seq!['u', 'n', 'k', 'n', 'o', 'w', 'n']));
                }
                Err("Unknown region code")
            }
        } else {
            Err("Unknown region code")
        }
    }
}

/// The display name of a region.
pub open spec fn spec_region_name(r: Region) -> Seq<char> {
    match r {
        Region::Asia(Asia::Tokyo) => "Tokyo"@,
        Region::Asia(Asia::Osaka) => "Osaka"@,
        Region::Asia(Asia::Seoul) => "Seoul"@,
        Region::Asia(Asia::Singapore) => "Singapore"@,
        Region::Asia(Asia::Mumbai) => "Mumbai"@,
        Region::Asia(Asia::TelAviv) => "Tel Aviv"@,
        Region::Asia(Asia::Bangalore) => "Bangalore"@,
        Region::Asia(Asia::Delhi) => "Delhi"@,
        Region::Australia(Australia::Sydney) => "Sydney"@,
        Region::Australia(Australia::Melbourne) => "Melbourne"@,
        Region::Europe(Europe::Amsterdam) => "Amsterdam"@,
        Region::Europe(Europe::London) => "London"@,
        Region::Europe(Europe::Frankfurt) => "Frankfurt"@,
        Region::Europe(Europe::Paris) => "Paris"@,
        Region::Europe(Europe::Warsaw) => "Warsaw"@,
        Region::Europe(Europe::Madrid) => "Madrid"@,
        Region::Europe(Europe::Stockholm) => "Stockholm"@,
        Region::NorthAmerica(NorthAmerica::NewJersey) => "New Jersey"@,
        Region::NorthAmerica(NorthAmerica::Chicago) => "Chicago"@,
        Region::NorthAmerica(NorthAmerica::Dallas) => "Dallas"@,
        Region::NorthAmerica(NorthAmerica::Seattle) => "Seattle"@,
        Region::NorthAmerica(NorthAmerica::LosAngeles) => "Los Angeles"@,
        Region::NorthAmerica(NorthAmerica::Atlanta) => "Atlanta"@,
        Region::NorthAmerica(NorthAmerica::SiliconValley) => "Silicon Valley"@,
        Region::NorthAmerica(NorthAmerica::Toronto) => "Toronto"@,
        Region::NorthAmerica(NorthAmerica::Miami) => "Miami"@,
        Region::NorthAmerica(NorthAmerica::MexicoCity) => "Mexico City"@,
        Region::NorthAmerica(NorthAmerica::Honolulu) => "Honolulu"@,
        Region::SouthAmerica(SouthAmerica::SaoPaulo) => "Sao Paulo"@,
        Region::SouthAmerica(SouthAmerica::Santiago) => "Santiago"@,
        Region::Africa(Africa::Johannesburg) => "Johannesburg"@,
        Region::Unknown => "Unknown"@,
    }
}

/// The region a display name stands for; `Unknown` has no name here.
pub open spec fn spec_region_of_name(s: Seq<char>) -> Option<Region> {
    if s == "Tokyo"@ {
        Some(Region::Asia(Asia::Tokyo))
    } else if s == "Osaka"@ {
        Some(Region::Asia(Asia::Osaka))
    } else if s == "Seoul"@ {
        Some(Region::Asia(Asia::Seoul))
    } else if s == "Singapore"@ {
        Some(Region::Asia(Asia::Singapore))
    } else if s == "Mumbai"@ {
        Some(Region::Asia(Asia::Mumbai))
    } else if s == "Tel Aviv"@ {
        Some(Region::Asia(Asia::TelAviv))
    } else if s == "Bangalore"@ {
        Some(Region::Asia(Asia::Bangalore))
    } else if s == "Delhi"@ {
        Some(Region::Asia(Asia::Delhi))
    } else if s == "Sydney"@ {
        Some(Region::Australia(Australia::Sydney))
    } else if s == "Melbourne"@ {
        Some(Region::Australia(Australia::Melbourne))
    } else if s == "Amsterdam"@ {
        Some(Region::Europe(Europe::Amsterdam))
    } else if s == "London"@ {
        Some(Region::Europe(Europe::London))
    } else if s == "Frankfurt"@ {
        Some(Region::Europe(Europe::Frankfurt))
    } else if s == "Paris"@ {
        Some(Region::Europe(Europe::Paris))
    } else if s == "Warsaw"@ {
        Some(Region::Europe(Europe::Warsaw))
    } else if s == "Madrid"@ {
        Some(Region::Europe(Europe::Madrid))
    } else if s == "Stockholm"@ {
        Some(Region::Europe(Europe::Stockholm))
    } else if s == "New Jersey"@ {
        Some(Region::NorthAmerica(NorthAmerica::NewJersey))
    } else if s == "Chicago"@ {
        Some(Region::NorthAmerica(NorthAmerica::Chicago))
    } else if s == "Dallas"@ {
        Some(Region::NorthAmerica(NorthAmerica::Dallas))
    } else if s == "Seattle"@ {
        Some(Region::NorthAmerica(NorthAmerica::Seattle))
    } else if s == "Los Angeles"@ {
        Some(Region::NorthAmerica(NorthAmerica::LosAngeles))
    } else if s == "Atlanta"@ {
        Some(Region::NorthAmerica(NorthAmerica::Atlanta))
    } else if s == "Silicon Valley"@ {
        Some(Region::NorthAmerica(NorthAmerica::SiliconValley))
    } else if s == "Toronto"@ {
        Some(Region::NorthAmerica(NorthAmerica::Toronto))
    } else if s == "Miami"@ {
        Some(Region::NorthAmerica(NorthAmerica::Miami))
    } else if s == "Mexico City"@ {
        Some(Region::NorthAmerica(NorthAmerica::MexicoCity))
    } else if s == "Honolulu"@ {
        Some(Region::NorthAmerica(NorthAmerica::Honolulu))
    } else if s == "Sao Paulo"@ {
        Some(Region::SouthAmerica(SouthAmerica::SaoPaulo))
    } else if s == "Santiago"@ {
        Some(Region::SouthAmerica(SouthAmerica::Santiago))
    } else if s == "Johannesburg"@ {
        Some(Region::Africa(Africa::Johannesburg))
    } else {
        None
    }
}

impl Region {
    /// Renders the region as its display name.
    pub fn name(&self) -> (n: &'static str)
        ensures
            n@ == spec_region_name(*self),
    {
        match self {
            Region::Asia(Asia::Tokyo) => "Tokyo",
            Region::Asia(Asia::Osaka) => "Osaka",
            Region::Asia(Asia::Seoul) => "Seoul",
            Region::Asia(Asia::Singapore) => "Singapore",
            Region::Asia(Asia::Mumbai) => "Mumbai",
            Region::Asia(Asia::TelAviv) => "Tel Aviv",
            Region::Asia(Asia::Bangalore) => "Bangalore",
            Region::Asia(Asia::Delhi) => "Delhi",
            Region::Australia(Australia::Sydney) => "Sydney",
            Region::Australia(Australia::Melbourne) => "Melbourne",
            Region::Europe(Europe::Amsterdam) => "Amsterdam",
            Region::Europe(Europe::London) => "London",
            Region::Europe(Europe::Frankfurt) => "Frankfurt",
            Region::Europe(Europe::Paris) => "Paris",
            Region::Europe(Europe::Warsaw) => "Warsaw",
            Region::Europe(Europe::Madrid) => "Madrid",
            Region::Europe(Europe::Stockholm) => "Stockholm",
            Region::NorthAmerica(NorthAmerica::NewJersey) => "New Jersey",
            Region::NorthAmerica(NorthAmerica::Chicago) => "Chicago",
            Region::NorthAmerica(NorthAmerica::Dallas) => "Dallas",
            Region::NorthAmerica(NorthAmerica::Seattle) => "Seattle",
            Region::NorthAmerica(NorthAmerica::LosAngeles) => "Los Angeles",
            Region::NorthAmerica(NorthAmerica::Atlanta) => "Atlanta",
            Region::NorthAmerica(NorthAmerica::SiliconValley) => "Silicon Valley",
            Region::NorthAmerica(NorthAmerica::Toronto) => "Toronto",
            Region::NorthAmerica(NorthAmerica::Miami) => "Miami",
            Region::NorthAmerica(NorthAmerica::MexicoCity) => "Mexico City",
            Region::NorthAmerica(NorthAmerica::Honolulu) => "Honolulu",
            Region::SouthAmerica(SouthAmerica::SaoPaulo) => "Sao Paulo",
            Region::SouthAmerica(SouthAmerica::Santiago) => "Santiago",
            Region::Africa(Africa::Johannesburg) => "Johannesburg",
            Region::Unknown => "Unknown",
        }
    }

    /// Parses a display name; unknown names are refused, and the
    /// `Unknown` variant has no name to parse.
    pub fn parse_name(s: &str) -> (r: Result<Region, ()>)
        ensures
            r matches Ok(region) ==> spec_region_of_name(s@) == Some(region),
            r is Err ==> spec_region_of_name(s@) is None,
    {
        let found = if crate::strutil::str_eq(s, "Tokyo") {
            Some(Region::Asia(Asia::Tokyo))
        } else if crate::strutil::str_eq(s, "Osaka") {
            Some(Region::Asia(Asia::Osaka))
        } else if crate::strutil::str_eq(s, "Seoul") {
            Some(Region::Asia(Asia::Seoul))
        } else if crate::strutil::str_eq(s, "Singapore") {
            Some(Region::Asia(Asia::Singapore))
        } else if crate::strutil::str_eq(s, "Mumbai") {
            Some(Region::Asia(Asia::Mumbai))
        } else if crate::strutil::str_eq(s, "Tel Aviv") {
            Some(Region::Asia(Asia::TelAviv))
        } else if crate::strutil::str_eq(s, "Bangalore") {
            Some(Region::Asia(Asia::Bangalore))
        } else if crate::strutil::str_eq(s, "Delhi") {
            Some(Region::Asia(Asia::Delhi))
        } else if crate::strutil::str_eq(s, "Sydney") {
            Some(Region::Australia(Australia::Sydney))
        } else if crate::strutil::str_eq(s, "Melbourne") {
            Some(Region::Australia(Australia::Melbourne))
        } else if crate::strutil::str_eq(s, "Amsterdam") {
            Some(Region::Europe(Europe::Amsterdam))
        } else if crate::strutil::str_eq(s, "London") {
            Some(Region::Europe(Europe::London))
        } else if crate::strutil::str_eq(s, "Frankfurt") {
            Some(Region::Europe(Europe::Frankfurt))
        } else if crate::strutil::str_eq(s, "Paris") {
            Some(Region::Europe(Europe::Paris))
        } else if crate::strutil::str_eq(s, "Warsaw") {
            Some(Region::Europe(Europe::Warsaw))
        } else if crate::strutil::str_eq(s, "Madrid") {
            Some(Region::Europe(Europe::Madrid))
        } else if crate::strutil::str_eq(s, "Stockholm") {
            Some(Region::Europe(Europe::Stockholm))
        } else if crate::strutil::str_eq(s, "New Jersey") {
            Some(Region::NorthAmerica(NorthAmerica::NewJersey))
        } else if crate::strutil::str_eq(s, "Chicago") {
            Some(Region::NorthAmerica(NorthAmerica::Chicago))
        } else if crate::strutil::str_eq(s, "Dallas") {
            Some(Region::NorthAmerica(NorthAmerica::Dallas))
        } else if crate::strutil::str_eq(s, "Seattle") {
            Some(Region::NorthAmerica(NorthAmerica::Seattle))
        } else if crate::strutil::str_eq(s, "Los Angeles") {
            Some(Region::NorthAmerica(NorthAmerica::LosAngeles))
        } else if crate::strutil::str_eq(s, "Atlanta") {
            Some(Region::NorthAmerica(NorthAmerica::Atlanta))
        } else if crate::strutil::str_eq(s, "Silicon Valley") {
            Some(Region::NorthAmerica(NorthAmerica::SiliconValley))
        } else if crate::strutil::str_eq(s, "Toronto") {
            Some(Region::NorthAmerica(NorthAmerica::Toronto))
        } else if crate::strutil::str_eq(s, "Miami") {
            Some(Region::NorthAmerica(NorthAmerica::Miami))
        } else if crate::strutil::str_eq(s, "Mexico City") {
            Some(Region::NorthAmerica(NorthAmerica::MexicoCity))
        } else if crate::strutil::str_eq(s, "Honolulu") {
            Some(Region::NorthAmerica(NorthAmerica::Honolulu))
        } else if crate::strutil::str_eq(s, "Sao Paulo") {
            Some(Region::SouthAmerica(SouthAmerica::SaoPaulo))
        } else if crate::strutil::str_eq(s, "Santiago") {
            Some(Region::SouthAmerica(SouthAmerica::Santiago))
        } else if crate::strutil::str_eq(s, "Johannesburg") {
            Some(Region::Africa(Africa::Johannesburg))
        } else {
            None
        };
        match found {
            Some(region) => Ok(region),
            None => Err(()),
        }
    }
}

/// Token to code and back: decoding the code of any known region
/// gives that region again.
pub proof fn lemma_region_code_round_trip(r: Region)
    requires
        r != Region::Unknown,
    ensures
        spec_from_code(spec_code(r)) == Some(r),
{
}

/// Code to token and back: the code of the region a known code names
/// is that code again.
pub proof fn lemma_region_from_code_round_trip(s: Seq<char>)
    requires
        spec_from_code(s) is Some,
        spec_from_code(s) != Some(Region::Unknown),
    ensures
        spec_code(spec_from_code(s).unwrap()) == s,
{
    if s.len() == 3 {
        assert(s =~= seq![s[0], s[1], s[2]]);
    }
}

} // verus!

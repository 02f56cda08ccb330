//! The catalog of languages: the ISO 639-1 codes, each with its English name
//! and the other spellings it answers to.

use vstd::prelude::*;

verus! {

/// A language of ISO 639-1, named by its two-letter code.
#[derive(Debug, Clone, Copy, PartialEq, Eq, Hash, Structural)]
pub enum Language {
    /// Afar.
    AA,
    /// Abkhaz.
    AB,
    /// Avestan.
    AE,
    /// Afrikaans.
    AF,
    /// Akan.
    AK,
    /// Amharic.
    AM,
    /// Aragonese.
    AN,
    /// Arabic.
    AR,
    /// Assamese.
    AS,
    /// Avaric.
    AV,
    /// Aymara.
    AY,
    /// Azerbaijani.
    AZ,
    /// Bashkir.
    BA,
    /// Belarusian.
    BE,
    /// Bulgarian.
    BG,
    /// Bihari.
    BH,
    /// Bislama.
    BI,
    /// Bambara.
    BM,
    /// Bengali.
    BN,
    /// Tibetan.
    BO,
    /// Breton.
    BR,
    /// Bosnian.
    BS,
    /// Catalan.
    CA,
    /// Chechen.
    CE,
    /// Chamorro.
    CH,
    /// Corsican.
    CO,
    /// Cree.
    CR,
    /// Czech.
    CS,
    /// Church Slavonic.
    CU,
    /// Chuvash.
    CV,
    /// Welsh.
    CY,
    /// Danish.
    DA,
    /// German.
    DE,
    /// Divehi.
    DV,
    /// Dzongkha.
    DZ,
    /// Ewe.
    EE,
    /// Greek.
    EL,
    /// English.
    EN,
    /// Esperanto.
    EO,
    /// Spanish.
    ES,
    /// Estonian.
    ET,
    /// Basque.
    EU,
    /// Persian.
    FA,
    /// Fula.
    FF,
    /// Finnish.
    FI,
    /// Fijian.
    FJ,
    /// Faroese.
    FO,
    /// French.
    FR,
    /// Western Frisian.
    FY,
    /// Irish.
    GA,
    /// Scottish Gaelic.
    GD,
    /// Galician.
    GL,
    /// Guaraní.
    GN,
    /// Gujarati.
    GU,
    /// Manx.
    GV,
    /// Hausa.
    HA,
    /// Hebrew.
    HE,
    /// Hindi.
    HI,
    /// Hiri Motu.
    HO,
    /// Croatian.
    HR,
    /// Haitian.
    HT,
    /// Hungarian.
    HU,
    /// Armenian.
    HY,
    /// Herero.
    HZ,
    /// Interlingua.
    IA,
    /// Indonesian.
    ID,
    /// Interlingue.
    IE,
    /// Igbo.
    IG,
    /// Nuosu.
    II,
    /// Inupiaq.
    IK,
    /// Ido.
    IO,
    /// Icelandic.
    IS,
    /// Italian.
    IT,
    /// Inuktitut.
    IU,
    /// Japanese.
    JA,
    /// Javanese.
    JV,
    /// Georgian.
    KA,
    /// Kongo.
    KG,
    /// Kikuyu.
    KI,
    /// Kwanyama.
    KJ,
    /// Kazakh.
    KK,
    /// Kalaallisut.
    KL,
    /// Khmer.
    KM,
    /// Kannada.
    KN,
    /// Korean.
    KO,
    /// Kanuri.
    KR,
    /// Kashmiri.
    KS,
    /// Kurdish.
    KU,
    /// Komi.
    KV,
    /// Cornish.
    KW,
    /// Kyrgyz.
    KY,
    /// Latin.
    LA,
    /// Luxembourgish.
    LB,
    /// Ganda.
    LG,
    /// Limburgish.
    LI,
    /// Lingala.
    LN,
    /// Lao.
    LO,
    /// Lithuanian.
    LT,
    /// Luba-Katanga.
    LU,
    /// Latvian.
    LV,
    /// Malagasy.
    MG,
    /// Marshallese.
    MH,
    /// Māori.
    MI,
    /// Macedonian.
    MK,
    /// Malayalam.
    ML,
    /// Mongolian.
    MN,
    /// Marathi.
    MR,
    /// Malay.
    MS,
    /// Maltese.
    MT,
    /// Burmese.
    MY,
    /// Nauruan.
    NA,
    /// Norwegian Bokmål.
    NB,
    /// Northen Ndbele.
    ND,
    /// Nepali.
    NE,
    /// Ndonga.
    NG,
    /// Dutch.
    NL,
    /// Norwegian Nynorsk.
    NN,
    /// Norwegian.
    NO,
    /// Southen Ndebele.
    NR,
    /// Navajo.
    NV,
    /// Chichewa.
    NY,
    /// Occitan.
    OC,
    /// Ojibwe.
    OJ,
    /// Oromo.
    OM,
    /// Oriya.
    OR,
    /// ossetian.
    OS,
    /// Eastern Punjabi.
    PA,
    /// Pali.
    PI,
    /// Polish.
    PL,
    /// Pashto.
    PS,
    /// Portuguese.
    PT,
    /// Quechua.
    QU,
    /// Romansh.
    RM,
    /// Kirundi.
    RN,
    /// Romanian.
    RO,
    /// Russian.
    RU,
    /// Kinyarwanda.
    RW,
    /// Sanskrit.
    SA,
    /// Sardinian.
    SC,
    /// Sindhi.
    SD,
    /// Northern Sami.
    SE,
    /// Sango.
    SG,
    /// Sinhalese.
    SI,
    /// Slovak.
    SK,
    /// Slovene.
    SL,
    /// Samoan.
    SM,
    /// Shona.
    SN,
    /// Somali.
    SO,
    /// Albanian.
    SQ,
    /// Serbian.
    SR,
    /// Swati.
    SS,
    /// Southern Sotho.
    ST,
    /// Sundanese.
    SU,
    /// Swedish.
    SV,
    /// Swahili.
    SW,
    /// Tamil.
    TA,
    /// Telugu.
    TE,
    /// Tajik.
    TG,
    /// Thai.
    TH,
    /// Tigrinya.
    TI,
    /// Turkmen.
    TK,
    /// Tagalog.
    TL,
    /// Tswana.
    TN,
    /// Tonga.
    TO,
    /// Turkish.
    TR,
    /// Tsonga.
    TS,
    /// Tatar.
    TT,
    /// Twi.
    TW,
    /// Tahitian.
    TY,
    /// Uyghur.
    UG,
    /// Ukrainian.
    UK,
    /// Urdu.
    UR,
    /// Uzbek.
    UZ,
    /// Venda.
    VE,
    /// Vietnamese.
    VI,
    /// Volapük.
    VO,
    /// Walloon.
    WA,
    /// Wolof.
    WO,
    /// Xhosa.
    XH,
    /// Yiddish.
    YI,
    /// Yoruba.
    YO,
    /// Zhuang.
    ZA,
    /// Chinese.
    ZH,
    /// Zulu.
    ZU,
}

/// Every language, in the order of the catalog.
pub open spec fn catalog() -> Seq<Language> {
    seq![
        Language::AA,
        Language::AB,
        Language::AE,
        Language::AF,
        Language::AK,
        Language::AM,
        Language::AN,
        Language::AR,
        Language::AS,
        Language::AV,
        Language::AY,
        Language::AZ,
        Language::BA,
        Language::BE,
        Language::BG,
        Language::BH,
        Language::BI,
        Language::BM,
        Language::BN,
        Language::BO,
        Language::BR,
        Language::BS,
        Language::CA,
        Language::CE,
        Language::CH,
        Language::CO,
        Language::CR,
        Language::CS,
        Language::CU,
        Language::CV,
        Language::CY,
        Language::DA,
        Language::DE,
        Language::DV,
        Language::DZ,
        Language::EE,
        Language::EL,
        Language::EN,
        Language::EO,
        Language::ES,
        Language::ET,
        Language::EU,
        Language::FA,
        Language::FF,
        Language::FI,
        Language::FJ,
        Language::FO,
        Language::FR,
        Language::FY,
        Language::GA,
        Language::GD,
        Language::GL,
        Language::GN,
        Language::GU,
        Language::GV,
        Language::HA,
        Language::HE,
        Language::HI,
        Language::HO,
        Language::HR,
        Language::HT,
        Language::HU,
        Language::HY,
        Language::HZ,
        Language::IA,
        Language::ID,
        Language::IE,
        Language::IG,
        Language::II,
        Language::IK,
        Language::IO,
        Language::IS,
        Language::IT,
        Language::IU,
        Language::JA,
        Language::JV,
        Language::KA,
        Language::KG,
        Language::KI,
        Language::KJ,
        Language::KK,
        Language::KL,
        Language::KM,
        Language::KN,
        Language::KO,
        Language::KR,
        Language::KS,
        Language::KU,
        Language::KV,
        Language::KW,
        Language::KY,
        Language::LA,
        Language::LB,
        Language::LG,
        Language::LI,
        Language::LN,
        Language::LO,
        Language::LT,
        Language::LU,
        Language::LV,
        Language::MG,
        Language::MH,
        Language::MI,
        Language::MK,
        Language::ML,
        Language::MN,
        Language::MR,
        Language::MS,
        Language::MT,
        Language::MY,
        Language::NA,
        Language::NB,
        Language::ND,
        Language::NE,
        Language::NG,
        Language::NL,
        Language::NN,
        Language::NO,
        Language::NR,
        Language::NV,
        Language::NY,
        Language::OC,
        Language::OJ,
        Language::OM,
        Language::OR,
        Language::OS,
        Language::PA,
        Language::PI,
        Language::PL,
        Language::PS,
        Language::PT,
        Language::QU,
        Language::RM,
        Language::RN,
        Language::RO,
        Language::RU,
        Language::RW,
        Language::SA,
        Language::SC,
        Language::SD,
        Language::SE,
        Language::SG,
        Language::SI,
        Language::SK,
        Language::SL,
        Language::SM,
        Language::SN,
        Language::SO,
        Language::SQ,
        Language::SR,
        Language::SS,
        Language::ST,
        Language::SU,
        Language::SV,
        Language::SW,
        Language::TA,
        Language::TE,
        Language::TG,
        Language::TH,
        Language::TI,
        Language::TK,
        Language::TL,
        Language::TN,
        Language::TO,
        Language::TR,
        Language::TS,
        Language::TT,
        Language::TW,
        Language::TY,
        Language::UG,
        Language::UK,
        Language::UR,
        Language::UZ,
        Language::VE,
        Language::VI,
        Language::VO,
        Language::WA,
        Language::WO,
        Language::XH,
        Language::YI,
        Language::YO,
        Language::ZA,
        Language::ZH,
        Language::ZU,
    ]
}

impl Language {
    /// The two-letter code, in lower case.
    pub open spec fn code_text(self) -> Seq<char> {
        match self {
            Language::AA => "aa"@,
            Language::AB => "ab"@,
            Language::AE => "ae"@,
            Language::AF => "af"@,
            Language::AK => "ak"@,
            Language::AM => "am"@,
            Language::AN => "an"@,
            Language::AR => "ar"@,
            Language::AS => "as"@,
            Language::AV => "av"@,
            Language::AY => "ay"@,
            Language::AZ => "az"@,
            Language::BA => "ba"@,
            Language::BE => "be"@,
            Language::BG => "bg"@,
            Language::BH => "bh"@,
            Language::BI => "bi"@,
            Language::BM => "bm"@,
            Language::BN => "bn"@,
            Language::BO => "bo"@,
            Language::BR => "br"@,
            Language::BS => "bs"@,
            Language::CA => "ca"@,
            Language::CE => "ce"@,
            Language::CH => "ch"@,
            Language::CO => "co"@,
            Language::CR => "cr"@,
            Language::CS => "cs"@,
            Language::CU => "cu"@,
            Language::CV => "cv"@,
            Language::CY => "cy"@,
            Language::DA => "da"@,
            Language::DE => "de"@,
            Language::DV => "dv"@,
            Language::DZ => "dz"@,
            Language::EE => "ee"@,
            Language::EL => "el"@,
            Language::EN => "en"@,
            Language::EO => "eo"@,
            Language::ES => "es"@,
            Language::ET => "et"@,
            Language::EU => "eu"@,
            Language::FA => "fa"@,
            Language::FF => "ff"@,
            Language::FI => "fi"@,
            Language::FJ => "fj"@,
            Language::FO => "fo"@,
            Language::FR => "fr"@,
            Language::FY => "fy"@,
            Language::GA => "ga"@,
            Language::GD => "gd"@,
            Language::GL => "gl"@,
            Language::GN => "gn"@,
            Language::GU => "gu"@,
            Language::GV => "gv"@,
            Language::HA => "ha"@,
            Language::HE => "he"@,
            Language::HI => "hi"@,
            Language::HO => "ho"@,
            Language::HR => "hr"@,
            Language::HT => "ht"@,
            Language::HU => "hu"@,
            Language::HY => "hy"@,
            Language::HZ => "hz"@,
            Language::IA => "ia"@,
            Language::ID => "id"@,
            Language::IE => "ie"@,
            Language::IG => "ig"@,
            Language::II => "ii"@,
            Language::IK => "ik"@,
            Language::IO => "io"@,
            Language::IS => "is"@,
            Language::IT => "it"@,
            Language::IU => "iu"@,
            Language::JA => "ja"@,
            Language::JV => "jv"@,
            Language::KA => "ka"@,
            Language::KG => "kg"@,
            Language::KI => "ki"@,
            Language::KJ => "kj"@,
            Language::KK => "kk"@,
            Language::KL => "kl"@,
            Language::KM => "km"@,
            Language::KN => "kn"@,
            Language::KO => "ko"@,
            Language::KR => "kr"@,
            Language::KS => "ks"@,
            Language::KU => "ku"@,
            Language::KV => "kv"@,
            Language::KW => "kw"@,
            Language::KY => "ky"@,
            Language::LA => "la"@,
            Language::LB => "lb"@,
            Language::LG => "lg"@,
            Language::LI => "li"@,
            Language::LN => "ln"@,
            Language::LO => "lo"@,
            Language::LT => "lt"@,
            Language::LU => "lu"@,
            Language::LV => "lv"@,
            Language::MG => "mg"@,
            Language::MH => "mh"@,
            Language::MI => "mi"@,
            Language::MK => "mk"@,
            Language::ML => "ml"@,
            Language::MN => "mn"@,
            Language::MR => "mr"@,
            Language::MS => "ms"@,
            Language::MT => "mt"@,
            Language::MY => "my"@,
            Language::NA => "na"@,
            Language::NB => "nb"@,
            Language::ND => "nd"@,
            Language::NE => "ne"@,
            Language::NG => "ng"@,
            Language::NL => "nl"@,
            Language::NN => "nn"@,
            Language::NO => "no"@,
            Language::NR => "nr"@,
            Language::NV => "nv"@,
            Language::NY => "ny"@,
            Language::OC => "oc"@,
            Language::OJ => "oj"@,
            Language::OM => "om"@,
            Language::OR => "or"@,
            Language::OS => "os"@,
            Language::PA => "pa"@,
            Language::PI => "pi"@,
            Language::PL => "pl"@,
            Language::PS => "ps"@,
            Language::PT => "pt"@,
            Language::QU => "qu"@,
            Language::RM => "rm"@,
            Language::RN => "rn"@,
            Language::RO => "ro"@,
            Language::RU => "ru"@,
            Language::RW => "rw"@,
            Language::SA => "sa"@,
            Language::SC => "sc"@,
            Language::SD => "sd"@,
            Language::SE => "se"@,
            Language::SG => "sg"@,
            Language::SI => "si"@,
            Language::SK => "sk"@,
            Language::SL => "sl"@,
            Language::SM => "sm"@,
            Language::SN => "sn"@,
            Language::SO => "so"@,
            Language::SQ => "sq"@,
            Language::SR => "sr"@,
            Language::SS => "ss"@,
            Language::ST => "st"@,
            Language::SU => "su"@,
            Language::SV => "sv"@,
            Language::SW => "sw"@,
            Language::TA => "ta"@,
            Language::TE => "te"@,
            Language::TG => "tg"@,
            Language::TH => "th"@,
            Language::TI => "ti"@,
            Language::TK => "tk"@,
            Language::TL => "tl"@,
            Language::TN => "tn"@,
            Language::TO => "to"@,
            Language::TR => "tr"@,
            Language::TS => "ts"@,
            Language::TT => "tt"@,
            Language::TW => "tw"@,
            Language::TY => "ty"@,
            Language::UG => "ug"@,
            Language::UK => "uk"@,
            Language::UR => "ur"@,
            Language::UZ => "uz"@,
            Language::VE => "ve"@,
            Language::VI => "vi"@,
            Language::VO => "vo"@,
            Language::WA => "wa"@,
            Language::WO => "wo"@,
            Language::XH => "xh"@,
            Language::YI => "yi"@,
            Language::YO => "yo"@,
            Language::ZA => "za"@,
            Language::ZH => "zh"@,
            Language::ZU => "zu"@,
        }
    }

    /// The two-letter code, in lower case.
    pub fn code(&self) -> (r: &'static str)
        ensures
            r@ == self.code_text(),
    {
        match self {
            Language::AA => "aa",
            Language::AB => "ab",
            Language::AE => "ae",
            Language::AF => "af",
            Language::AK => "ak",
            Language::AM => "am",
            Language::AN => "an",
            Language::AR => "ar",
            Language::AS => "as",
            Language::AV => "av",
            Language::AY => "ay",
            Language::AZ => "az",
            Language::BA => "ba",
            Language::BE => "be",
            Language::BG => "bg",
            Language::BH => "bh",
            Language::BI => "bi",
            Language::BM => "bm",
            Language::BN => "bn",
            Language::BO => "bo",
            Language::BR => "br",
            Language::BS => "bs",
            Language::CA => "ca",
            Language::CE => "ce",
            Language::CH => "ch",
            Language::CO => "co",
            Language::CR => "cr",
            Language::CS => "cs",
            Language::CU => "cu",
            Language::CV => "cv",
            Language::CY => "cy",
            Language::DA => "da",
            Language::DE => "de",
            Language::DV => "dv",
            Language::DZ => "dz",
            Language::EE => "ee",
            Language::EL => "el",
            Language::EN => "en",
            Language::EO => "eo",
            Language::ES => "es",
            Language::ET => "et",
            Language::EU => "eu",
            Language::FA => "fa",
            Language::FF => "ff",
            Language::FI => "fi",
            Language::FJ => "fj",
            Language::FO => "fo",
            Language::FR => "fr",
            Language::FY => "fy",
            Language::GA => "ga",
            Language::GD => "gd",
            Language::GL => "gl",
            Language::GN => "gn",
            Language::GU => "gu",
            Language::GV => "gv",
            Language::HA => "ha",
            Language::HE => "he",
            Language::HI => "hi",
            Language::HO => "ho",
            Language::HR => "hr",
            Language::HT => "ht",
            Language::HU => "hu",
            Language::HY => "hy",
            Language::HZ => "hz",
            Language::IA => "ia",
            Language::ID => "id",
            Language::IE => "ie",
            Language::IG => "ig",
            Language::II => "ii",
            Language::IK => "ik",
            Language::IO => "io",
            Language::IS => "is",
            Language::IT => "it",
            Language::IU => "iu",
            Language::JA => "ja",
            Language::JV => "jv",
            Language::KA => "ka",
            Language::KG => "kg",
            Language::KI => "ki",
            Language::KJ => "kj",
            Language::KK => "kk",
            Language::KL => "kl",
            Language::KM => "km",
            Language::KN => "kn",
            Language::KO => "ko",
            Language::KR => "kr",
            Language::KS => "ks",
            Language::KU => "ku",
            Language::KV => "kv",
            Language::KW => "kw",
            Language::KY => "ky",
            Language::LA => "la",
            Language::LB => "lb",
            Language::LG => "lg",
            Language::LI => "li",
            Language::LN => "ln",
            Language::LO => "lo",
            Language::LT => "lt",
            Language::LU => "lu",
            Language::LV => "lv",
            Language::MG => "mg",
            Language::MH => "mh",
            Language::MI => "mi",
            Language::MK => "mk",
            Language::ML => "ml",
            Language::MN => "mn",
            Language::MR => "mr",
            Language::MS => "ms",
            Language::MT => "mt",
            Language::MY => "my",
            Language::NA => "na",
            Language::NB => "nb",
            Language::ND => "nd",
            Language::NE => "ne",
            Language::NG => "ng",
            Language::NL => "nl",
            Language::NN => "nn",
            Language::NO => "no",
            Language::NR => "nr",
            Language::NV => "nv",
            Language::NY => "ny",
            Language::OC => "oc",
            Language::OJ => "oj",
            Language::OM => "om",
            Language::OR => "or",
            Language::OS => "os",
            Language::PA => "pa",
            Language::PI => "pi",
            Language::PL => "pl",
            Language::PS => "ps",
            Language::PT => "pt",
            Language::QU => "qu",
            Language::RM => "rm",
            Language::RN => "rn",
            Language::RO => "ro",
            Language::RU => "ru",
            Language::RW => "rw",
            Language::SA => "sa",
            Language::SC => "sc",
            Language::SD => "sd",
            Language::SE => "se",
            Language::SG => "sg",
            Language::SI => "si",
            Language::SK => "sk",
            Language::SL => "sl",
            Language::SM => "sm",
            Language::SN => "sn",
            Language::SO => "so",
            Language::SQ => "sq",
            Language::SR => "sr",
            Language::SS => "ss",
            Language::ST => "st",
            Language::SU => "su",
            Language::SV => "sv",
            Language::SW => "sw",
            Language::TA => "ta",
            Language::TE => "te",
            Language::TG => "tg",
            Language::TH => "th",
            Language::TI => "ti",
            Language::TK => "tk",
            Language::TL => "tl",
            Language::TN => "tn",
            Language::TO => "to",
            Language::TR => "tr",
            Language::TS => "ts",
            Language::TT => "tt",
            Language::TW => "tw",
            Language::TY => "ty",
            Language::UG => "ug",
            Language::UK => "uk",
            Language::UR => "ur",
            Language::UZ => "uz",
            Language::VE => "ve",
            Language::VI => "vi",
            Language::VO => "vo",
            Language::WA => "wa",
            Language::WO => "wo",
            Language::XH => "xh",
            Language::YI => "yi",
            Language::YO => "yo",
            Language::ZA => "za",
            Language::ZH => "zh",
            Language::ZU => "zu",
        }
    }

    /// The two-letter code in upper case, which is how the variant is written.
    pub open spec fn tag_text(self) -> Seq<char> {
        match self {
            Language::AA => "AA"@,
            Language::AB => "AB"@,
            Language::AE => "AE"@,
            Language::AF => "AF"@,
            Language::AK => "AK"@,
            Language::AM => "AM"@,
            Language::AN => "AN"@,
            Language::AR => "AR"@,
            Language::AS => "AS"@,
            Language::AV => "AV"@,
            Language::AY => "AY"@,
            Language::AZ => "AZ"@,
            Language::BA => "BA"@,
            Language::BE => "BE"@,
            Language::BG => "BG"@,
            Language::BH => "BH"@,
            Language::BI => "BI"@,
            Language::BM => "BM"@,
            Language::BN => "BN"@,
            Language::BO => "BO"@,
            Language::BR => "BR"@,
            Language::BS => "BS"@,
            Language::CA => "CA"@,
            Language::CE => "CE"@,
            Language::CH => "CH"@,
            Language::CO => "CO"@,
            Language::CR => "CR"@,
            Language::CS => "CS"@,
            Language::CU => "CU"@,
            Language::CV => "CV"@,
            Language::CY => "CY"@,
            Language::DA => "DA"@,
            Language::DE => "DE"@,
            Language::DV => "DV"@,
            Language::DZ => "DZ"@,
            Language::EE => "EE"@,
            Language::EL => "EL"@,
            Language::EN => "EN"@,
            Language::EO => "EO"@,
            Language::ES => "ES"@,
            Language::ET => "ET"@,
            Language::EU => "EU"@,
            Language::FA => "FA"@,
            Language::FF => "FF"@,
            Language::FI => "FI"@,
            Language::FJ => "FJ"@,
            Language::FO => "FO"@,
            Language::FR => "FR"@,
            Language::FY => "FY"@,
            Language::GA => "GA"@,
            Language::GD => "GD"@,
            Language::GL => "GL"@,
            Language::GN => "GN"@,
            Language::GU => "GU"@,
            Language::GV => "GV"@,
            Language::HA => "HA"@,
            Language::HE => "HE"@,
            Language::HI => "HI"@,
            Language::HO => "HO"@,
            Language::HR => "HR"@,
            Language::HT => "HT"@,
            Language::HU => "HU"@,
            Language::HY => "HY"@,
            Language::HZ => "HZ"@,
            Language::IA => "IA"@,
            Language::ID => "ID"@,
            Language::IE => "IE"@,
            Language::IG => "IG"@,
            Language::II => "II"@,
            Language::IK => "IK"@,
            Language::IO => "IO"@,
            Language::IS => "IS"@,
            Language::IT => "IT"@,
            Language::IU => "IU"@,
            Language::JA => "JA"@,
            Language::JV => "JV"@,
            Language::KA => "KA"@,
            Language::KG => "KG"@,
            Language::KI => "KI"@,
            Language::KJ => "KJ"@,
            Language::KK => "KK"@,
            Language::KL => "KL"@,
            Language::KM => "KM"@,
            Language::KN => "KN"@,
            Language::KO => "KO"@,
            Language::KR => "KR"@,
            Language::KS => "KS"@,
            Language::KU => "KU"@,
            Language::KV => "KV"@,
            Language::KW => "KW"@,
            Language::KY => "KY"@,
            Language::LA => "LA"@,
            Language::LB => "LB"@,
            Language::LG => "LG"@,
            Language::LI => "LI"@,
            Language::LN => "LN"@,
            Language::LO => "LO"@,
            Language::LT => "LT"@,
            Language::LU => "LU"@,
            Language::LV => "LV"@,
            Language::MG => "MG"@,
            Language::MH => "MH"@,
            Language::MI => "MI"@,
            Language::MK => "MK"@,
            Language::ML => "ML"@,
            Language::MN => "MN"@,
            Language::MR => "MR"@,
            Language::MS => "MS"@,
            Language::MT => "MT"@,
            Language::MY => "MY"@,
            Language::NA => "NA"@,
            Language::NB => "NB"@,
            Language::ND => "ND"@,
            Language::NE => "NE"@,
            Language::NG => "NG"@,
            Language::NL => "NL"@,
            Language::NN => "NN"@,
            Language::NO => "NO"@,
            Language::NR => "NR"@,
            Language::NV => "NV"@,
            Language::NY => "NY"@,
            Language::OC => "OC"@,
            Language::OJ => "OJ"@,
            Language::OM => "OM"@,
            Language::OR => "OR"@,
            Language::OS => "OS"@,
            Language::PA => "PA"@,
            Language::PI => "PI"@,
            Language::PL => "PL"@,
            Language::PS => "PS"@,
            Language::PT => "PT"@,
            Language::QU => "QU"@,
            Language::RM => "RM"@,
            Language::RN => "RN"@,
            Language::RO => "RO"@,
            Language::RU => "RU"@,
            Language::RW => "RW"@,
            Language::SA => "SA"@,
            Language::SC => "SC"@,
            Language::SD => "SD"@,
            Language::SE => "SE"@,
            Language::SG => "SG"@,
            Language::SI => "SI"@,
            Language::SK => "SK"@,
            Language::SL => "SL"@,
            Language::SM => "SM"@,
            Language::SN => "SN"@,
            Language::SO => "SO"@,
            Language::SQ => "SQ"@,
            Language::SR => "SR"@,
            Language::SS => "SS"@,
            Language::ST => "ST"@,
            Language::SU => "SU"@,
            Language::SV => "SV"@,
            Language::SW => "SW"@,
            Language::TA => "TA"@,
            Language::TE => "TE"@,
            Language::TG => "TG"@,
            Language::TH => "TH"@,
            Language::TI => "TI"@,
            Language::TK => "TK"@,
            Language::TL => "TL"@,
            Language::TN => "TN"@,
            Language::TO => "TO"@,
            Language::TR => "TR"@,
            Language::TS => "TS"@,
            Language::TT => "TT"@,
            Language::TW => "TW"@,
            Language::TY => "TY"@,
            Language::UG => "UG"@,
            Language::UK => "UK"@,
            Language::UR => "UR"@,
            Language::UZ => "UZ"@,
            Language::VE => "VE"@,
            Language::VI => "VI"@,
            Language::VO => "VO"@,
            Language::WA => "WA"@,
            Language::WO => "WO"@,
            Language::XH => "XH"@,
            Language::YI => "YI"@,
            Language::YO => "YO"@,
            Language::ZA => "ZA"@,
            Language::ZH => "ZH"@,
            Language::ZU => "ZU"@,
        }
    }

    /// The two-letter code in upper case, which is how the variant is written.
    pub fn tag(&self) -> (r: &'static str)
        ensures
            r@ == self.tag_text(),
    {
        match self {
            Language::AA => "AA",
            Language::AB => "AB",
            Language::AE => "AE",
            Language::AF => "AF",
            Language::AK => "AK",
            Language::AM => "AM",
            Language::AN => "AN",
            Language::AR => "AR",
            Language::AS => "AS",
            Language::AV => "AV",
            Language::AY => "AY",
            Language::AZ => "AZ",
            Language::BA => "BA",
            Language::BE => "BE",
            Language::BG => "BG",
            Language::BH => "BH",
            Language::BI => "BI",
            Language::BM => "BM",
            Language::BN => "BN",
            Language::BO => "BO",
            Language::BR => "BR",
            Language::BS => "BS",
            Language::CA => "CA",
            Language::CE => "CE",
            Language::CH => "CH",
            Language::CO => "CO",
            Language::CR => "CR",
            Language::CS => "CS",
            Language::CU => "CU",
            Language::CV => "CV",
            Language::CY => "CY",
            Language::DA => "DA",
            Language::DE => "DE",
            Language::DV => "DV",
            Language::DZ => "DZ",
            Language::EE => "EE",
            Language::EL => "EL",
            Language::EN => "EN",
            Language::EO => "EO",
            Language::ES => "ES",
            Language::ET => "ET",
            Language::EU => "EU",
            Language::FA => "FA",
            Language::FF => "FF",
            Language::FI => "FI",
            Language::FJ => "FJ",
            Language::FO => "FO",
            Language::FR => "FR",
            Language::FY => "FY",
            Language::GA => "GA",
            Language::GD => "GD",
            Language::GL => "GL",
            Language::GN => "GN",
            Language::GU => "GU",
            Language::GV => "GV",
            Language::HA => "HA",
            Language::HE => "HE",
            Language::HI => "HI",
            Language::HO => "HO",
            Language::HR => "HR",
            Language::HT => "HT",
            Language::HU => "HU",
            Language::HY => "HY",
            Language::HZ => "HZ",
            Language::IA => "IA",
            Language::ID => "ID",
            Language::IE => "IE",
            Language::IG => "IG",
            Language::II => "II",
            Language::IK => "IK",
            Language::IO => "IO",
            Language::IS => "IS",
            Language::IT => "IT",
            Language::IU => "IU",
            Language::JA => "JA",
            Language::JV => "JV",
            Language::KA => "KA",
            Language::KG => "KG",
            Language::KI => "KI",
            Language::KJ => "KJ",
            Language::KK => "KK",
            Language::KL => "KL",
            Language::KM => "KM",
            Language::KN => "KN",
            Language::KO => "KO",
            Language::KR => "KR",
            Language::KS => "KS",
            Language::KU => "KU",
            Language::KV => "KV",
            Language::KW => "KW",
            Language::KY => "KY",
            Language::LA => "LA",
            Language::LB => "LB",
            Language::LG => "LG",
            Language::LI => "LI",
            Language::LN => "LN",
            Language::LO => "LO",
            Language::LT => "LT",
            Language::LU => "LU",
            Language::LV => "LV",
            Language::MG => "MG",
            Language::MH => "MH",
            Language::MI => "MI",
            Language::MK => "MK",
            Language::ML => "ML",
            Language::MN => "MN",
            Language::MR => "MR",
            Language::MS => "MS",
            Language::MT => "MT",
            Language::MY => "MY",
            Language::NA => "NA",
            Language::NB => "NB",
            Language::ND => "ND",
            Language::NE => "NE",
            Language::NG => "NG",
            Language::NL => "NL",
            Language::NN => "NN",
            Language::NO => "NO",
            Language::NR => "NR",
            Language::NV => "NV",
            Language::NY => "NY",
            Language::OC => "OC",
            Language::OJ => "OJ",
            Language::OM => "OM",
            Language::OR => "OR",
            Language::OS => "OS",
            Language::PA => "PA",
            Language::PI => "PI",
            Language::PL => "PL",
            Language::PS => "PS",
            Language::PT => "PT",
            Language::QU => "QU",
            Language::RM => "RM",
            Language::RN => "RN",
            Language::RO => "RO",
            Language::RU => "RU",
            Language::RW => "RW",
            Language::SA => "SA",
            Language::SC => "SC",
            Language::SD => "SD",
            Language::SE => "SE",
            Language::SG => "SG",
            Language::SI => "SI",
            Language::SK => "SK",
            Language::SL => "SL",
            Language::SM => "SM",
            Language::SN => "SN",
            Language::SO => "SO",
            Language::SQ => "SQ",
            Language::SR => "SR",
            Language::SS => "SS",
            Language::ST => "ST",
            Language::SU => "SU",
            Language::SV => "SV",
            Language::SW => "SW",
            Language::TA => "TA",
            Language::TE => "TE",
            Language::TG => "TG",
            Language::TH => "TH",
            Language::TI => "TI",
            Language::TK => "TK",
            Language::TL => "TL",
            Language::TN => "TN",
            Language::TO => "TO",
            Language::TR => "TR",
            Language::TS => "TS",
            Language::TT => "TT",
            Language::TW => "TW",
            Language::TY => "TY",
            Language::UG => "UG",
            Language::UK => "UK",
            Language::UR => "UR",
            Language::UZ => "UZ",
            Language::VE => "VE",
            Language::VI => "VI",
            Language::VO => "VO",
            Language::WA => "WA",
            Language::WO => "WO",
            Language::XH => "XH",
            Language::YI => "YI",
            Language::YO => "YO",
            Language::ZA => "ZA",
            Language::ZH => "ZH",
            Language::ZU => "ZU",
        }
    }

    /// The English name.
    pub open spec fn name_text(self) -> Seq<char> {
        match self {
            Language::AA => "Afar"@,
            Language::AB => "Abkhaz"@,
            Language::AE => "Avestan"@,
            Language::AF => "Afrikaans"@,
            Language::AK => "Akan"@,
            Language::AM => "Amharic"@,
            Language::AN => "Aragonese"@,
            Language::AR => "Arabic"@,
            Language::AS => "Assamese"@,
            Language::AV => "Avaric"@,
            Language::AY => "Aymara"@,
            Language::AZ => "Azerbaijani"@,
            Language::BA => "Bashkir"@,
            Language::BE => "Belarusian"@,
            Language::BG => "Bulgarian"@,
            Language::BH => "Bihari"@,
            Language::BI => "Bislama"@,
            Language::BM => "Bambara"@,
            Language::BN => "Bengali"@,
            Language::BO => "Tibetan"@,
            Language::BR => "Breton"@,
            Language::BS => "Bosnian"@,
            Language::CA => "Catalan"@,
            Language::CE => "Chechen"@,
            Language::CH => "Chamorro"@,
            Language::CO => "Corsican"@,
            Language::CR => "Cree"@,
            Language::CS => "Czech"@,
            Language::CU => "Church Slavonic"@,
            Language::CV => "Chuvash"@,
            Language::CY => "Welsh"@,
            Language::DA => "Danish"@,
            Language::DE => "German"@,
            Language::DV => "Divehi"@,
            Language::DZ => "Dzongkha"@,
            Language::EE => "Ewe"@,
            Language::EL => "Greek"@,
            Language::EN => "English"@,
            Language::EO => "Esperanto"@,
            Language::ES => "Spanish"@,
            Language::ET => "Estonian"@,
            Language::EU => "Basque"@,
            Language::FA => "Persian"@,
            Language::FF => "Fula"@,
            Language::FI => "Finnish"@,
            Language::FJ => "Fijian"@,
            Language::FO => "Faroese"@,
            Language::FR => "French"@,
            Language::FY => "Western Frisian"@,
            Language::GA => "Irish"@,
            Language::GD => "Scottish Gaelic"@,
            Language::GL => "Galician"@,
            Language::GN => "Guaraní"@,
            Language::GU => "Gujarati"@,
            Language::GV => "Manx"@,
            Language::HA => "Hausa"@,
            Language::HE => "Hebrew"@,
            Language::HI => "Hindi"@,
            Language::HO => "Hiri Motu"@,
            Language::HR => "Croatian"@,
            Language::HT => "Haitian"@,
            Language::HU => "Hungarian"@,
            Language::HY => "Armenian"@,
            Language::HZ => "Herero"@,
            Language::IA => "Interlingua"@,
            Language::ID => "Indonesian"@,
            Language::IE => "Interlingue"@,
            Language::IG => "Igbo"@,
            Language::II => "Nuosu"@,
            Language::IK => "Inupiaq"@,
            Language::IO => "Ido"@,
            Language::IS => "Icelandic"@,
            Language::IT => "Italian"@,
            Language::IU => "Inuktitut"@,
            Language::JA => "Japanese"@,
            Language::JV => "Javanese"@,
            Language::KA => "Georgian"@,
            Language::KG => "Kongo"@,
            Language::KI => "Kikuyu"@,
            Language::KJ => "Kwanyama"@,
            Language::KK => "Kazakh"@,
            Language::KL => "Kalaallisut"@,
            Language::KM => "Khmer"@,
            Language::KN => "Kannada"@,
            Language::KO => "Korean"@,
            Language::KR => "Kanuri"@,
            Language::KS => "Kashmiri"@,
            Language::KU => "Kurdish"@,
            Language::KV => "Komi"@,
            Language::KW => "Cornish"@,
            Language::KY => "Kyrgyz"@,
            Language::LA => "Latin"@,
            Language::LB => "Luxembourgish"@,
            Language::LG => "Ganda"@,
            Language::LI => "Limburgish"@,
            Language::LN => "Lingala"@,
            Language::LO => "Lao"@,
            Language::LT => "Lithuanian"@,
            Language::LU => "Luba-Katanga"@,
            Language::LV => "Latvian"@,
            Language::MG => "Malagasy"@,
            Language::MH => "Marshallese"@,
            Language::MI => "Māori"@,
            Language::MK => "Macedonian"@,
            Language::ML => "Malayalam"@,
            Language::MN => "Mongolian"@,
            Language::MR => "Marathi"@,
            Language::MS => "Malay"@,
            Language::MT => "Maltese"@,
            Language::MY => "Burmese"@,
            Language::NA => "Nauruan"@,
            Language::NB => "Norwegian Bokmål"@,
            Language::ND => "Northen Ndbele"@,
            Language::NE => "Nepali"@,
            Language::NG => "Ndonga"@,
            Language::NL => "Dutch"@,
            Language::NN => "Norwegian Nynorsk"@,
            Language::NO => "Norwegian"@,
            Language::NR => "Southen Ndebele"@,
            Language::NV => "Navajo"@,
            Language::NY => "Chichewa"@,
            Language::OC => "Occitan"@,
            Language::OJ => "Ojibwe"@,
            Language::OM => "Oromo"@,
            Language::OR => "Oriya"@,
            Language::OS => "ossetian"@,
            Language::PA => "Eastern Punjabi"@,
            Language::PI => "Pali"@,
            Language::PL => "Polish"@,
            Language::PS => "Pashto"@,
            Language::PT => "Portuguese"@,
            Language::QU => "Quechua"@,
            Language::RM => "Romansh"@,
            Language::RN => "Kirundi"@,
            Language::RO => "Romanian"@,
            Language::RU => "Russian"@,
            Language::RW => "Kinyarwanda"@,
            Language::SA => "Sanskrit"@,
            Language::SC => "Sardinian"@,
            Language::SD => "Sindhi"@,
            Language::SE => "Northern Sami"@,
            Language::SG => "Sango"@,
            Language::SI => "Sinhalese"@,
            Language::SK => "Slovak"@,
            Language::SL => "Slovene"@,
            Language::SM => "Samoan"@,
            Language::SN => "Shona"@,
            Language::SO => "Somali"@,
            Language::SQ => "Albanian"@,
            Language::SR => "Serbian"@,
            Language::SS => "Swati"@,
            Language::ST => "Southern Sotho"@,
            Language::SU => "Sundanese"@,
            Language::SV => "Swedish"@,
            Language::SW => "Swahili"@,
            Language::TA => "Tamil"@,
            Language::TE => "Telugu"@,
            Language::TG => "Tajik"@,
            Language::TH => "Thai"@,
            Language::TI => "Tigrinya"@,
            Language::TK => "Turkmen"@,
            Language::TL => "Tagalog"@,
            Language::TN => "Tswana"@,
            Language::TO => "Tonga"@,
            Language::TR => "Turkish"@,
            Language::TS => "Tsonga"@,
            Language::TT => "Tatar"@,
            Language::TW => "Twi"@,
            Language::TY => "Tahitian"@,
            Language::UG => "Uyghur"@,
            Language::UK => "Ukrainian"@,
            Language::UR => "Urdu"@,
            Language::UZ => "Uzbek"@,
            Language::VE => "Venda"@,
            Language::VI => "Vietnamese"@,
            Language::VO => "Volapük"@,
            Language::WA => "Walloon"@,
            Language::WO => "Wolof"@,
            Language::XH => "Xhosa"@,
            Language::YI => "Yiddish"@,
            Language::YO => "Yoruba"@,
            Language::ZA => "Zhuang"@,
            Language::ZH => "Chinese"@,
            Language::ZU => "Zulu"@,
        }
    }

    /// The English name.
    pub fn name(&self) -> (r: &'static str)
        ensures
            r@ == self.name_text(),
    {
        match self {
            Language::AA => "Afar",
            Language::AB => "Abkhaz",
            Language::AE => "Avestan",
            Language::AF => "Afrikaans",
            Language::AK => "Akan",
            Language::AM => "Amharic",
            Language::AN => "Aragonese",
            Language::AR => "Arabic",
            Language::AS => "Assamese",
            Language::AV => "Avaric",
            Language::AY => "Aymara",
            Language::AZ => "Azerbaijani",
            Language::BA => "Bashkir",
            Language::BE => "Belarusian",
            Language::BG => "Bulgarian",
            Language::BH => "Bihari",
            Language::BI => "Bislama",
            Language::BM => "Bambara",
            Language::BN => "Bengali",
            Language::BO => "Tibetan",
            Language::BR => "Breton",
            Language::BS => "Bosnian",
            Language::CA => "Catalan",
            Language::CE => "Chechen",
            Language::CH => "Chamorro",
            Language::CO => "Corsican",
            Language::CR => "Cree",
            Language::CS => "Czech",
            Language::CU => "Church Slavonic",
            Language::CV => "Chuvash",
            Language::CY => "Welsh",
            Language::DA => "Danish",
            Language::DE => "German",
            Language::DV => "Divehi",
            Language::DZ => "Dzongkha",
            Language::EE => "Ewe",
            Language::EL => "Greek",
            Language::EN => "English",
            Language::EO => "Esperanto",
            Language::ES => "Spanish",
            Language::ET => "Estonian",
            Language::EU => "Basque",
            Language::FA => "Persian",
            Language::FF => "Fula",
            Language::FI => "Finnish",
            Language::FJ => "Fijian",
            Language::FO => "Faroese",
            Language::FR => "French",
            Language::FY => "Western Frisian",
            Language::GA => "Irish",
            Language::GD => "Scottish Gaelic",
            Language::GL => "Galician",
            Language::GN => "Guaraní",
            Language::GU => "Gujarati",
            Language::GV => "Manx",
            Language::HA => "Hausa",
            Language::HE => "Hebrew",
            Language::HI => "Hindi",
            Language::HO => "Hiri Motu",
            Language::HR => "Croatian",
            Language::HT => "Haitian",
            Language::HU => "Hungarian",
            Language::HY => "Armenian",
            Language::HZ => "Herero",
            Language::IA => "Interlingua",
            Language::ID => "Indonesian",
            Language::IE => "Interlingue",
            Language::IG => "Igbo",
            Language::II => "Nuosu",
            Language::IK => "Inupiaq",
            Language::IO => "Ido",
            Language::IS => "Icelandic",
            Language::IT => "Italian",
            Language::IU => "Inuktitut",
            Language::JA => "Japanese",
            Language::JV => "Javanese",
            Language::KA => "Georgian",
            Language::KG => "Kongo",
            Language::KI => "Kikuyu",
            Language::KJ => "Kwanyama",
            Language::KK => "Kazakh",
            Language::KL => "Kalaallisut",
            Language::KM => "Khmer",
            Language::KN => "Kannada",
            Language::KO => "Korean",
            Language::KR => "Kanuri",
            Language::KS => "Kashmiri",
            Language::KU => "Kurdish",
            Language::KV => "Komi",
            Language::KW => "Cornish",
            Language::KY => "Kyrgyz",
            Language::LA => "Latin",
            Language::LB => "Luxembourgish",
            Language::LG => "Ganda",
            Language::LI => "Limburgish",
            Language::LN => "Lingala",
            Language::LO => "Lao",
            Language::LT => "Lithuanian",
            Language::LU => "Luba-Katanga",
            Language::LV => "Latvian",
            Language::MG => "Malagasy",
            Language::MH => "Marshallese",
            Language::MI => "Māori",
            Language::MK => "Macedonian",
            Language::ML => "Malayalam",
            Language::MN => "Mongolian",
            Language::MR => "Marathi",
            Language::MS => "Malay",
            Language::MT => "Maltese",
            Language::MY => "Burmese",
            Language::NA => "Nauruan",
            Language::NB => "Norwegian Bokmål",
            Language::ND => "Northen Ndbele",
            Language::NE => "Nepali",
            Language::NG => "Ndonga",
            Language::NL => "Dutch",
            Language::NN => "Norwegian Nynorsk",
            Language::NO => "Norwegian",
            Language::NR => "Southen Ndebele",
            Language::NV => "Navajo",
            Language::NY => "Chichewa",
            Language::OC => "Occitan",
            Language::OJ => "Ojibwe",
            Language::OM => "Oromo",
            Language::OR => "Oriya",
            Language::OS => "ossetian",
            Language::PA => "Eastern Punjabi",
            Language::PI => "Pali",
            Language::PL => "Polish",
            Language::PS => "Pashto",
            Language::PT => "Portuguese",
            Language::QU => "Quechua",
            Language::RM => "Romansh",
            Language::RN => "Kirundi",
            Language::RO => "Romanian",
            Language::RU => "Russian",
            Language::RW => "Kinyarwanda",
            Language::SA => "Sanskrit",
            Language::SC => "Sardinian",
            Language::SD => "Sindhi",
            Language::SE => "Northern Sami",
            Language::SG => "Sango",
            Language::SI => "Sinhalese",
            Language::SK => "Slovak",
            Language::SL => "Slovene",
            Language::SM => "Samoan",
            Language::SN => "Shona",
            Language::SO => "Somali",
            Language::SQ => "Albanian",
            Language::SR => "Serbian",
            Language::SS => "Swati",
            Language::ST => "Southern Sotho",
            Language::SU => "Sundanese",
            Language::SV => "Swedish",
            Language::SW => "Swahili",
            Language::TA => "Tamil",
            Language::TE => "Telugu",
            Language::TG => "Tajik",
            Language::TH => "Thai",
            Language::TI => "Tigrinya",
            Language::TK => "Turkmen",
            Language::TL => "Tagalog",
            Language::TN => "Tswana",
            Language::TO => "Tonga",
            Language::TR => "Turkish",
            Language::TS => "Tsonga",
            Language::TT => "Tatar",
            Language::TW => "Twi",
            Language::TY => "Tahitian",
            Language::UG => "Uyghur",
            Language::UK => "Ukrainian",
            Language::UR => "Urdu",
            Language::UZ => "Uzbek",
            Language::VE => "Venda",
            Language::VI => "Vietnamese",
            Language::VO => "Volapük",
            Language::WA => "Walloon",
            Language::WO => "Wolof",
            Language::XH => "Xhosa",
            Language::YI => "Yiddish",
            Language::YO => "Yoruba",
            Language::ZA => "Zhuang",
            Language::ZH => "Chinese",
            Language::ZU => "Zulu",
        }
    }

    /// The other spellings that the language answers to, mostly its own name for itself.
    pub open spec fn alternatives_text(self) -> Seq<Seq<char>> {
        match self {
            Language::AA => seq!["Afaraf"@],
            Language::AB => seq!["аҧсшәа"@],
            Language::AE => seq!["Avesta"@],
            Language::AM => seq!["አማርኛ"@],
            Language::AN => seq!["aragonés"@],
            Language::AR => seq!["العربية"@],
            Language::AS => seq!["অসমীয়া"@],
            Language::AV => seq!["авар мацӀ"@, "магӀарул мацӀ"@],
            Language::AY => seq!["aymar aru"@],
            Language::AZ => seq!["azərbaycan dili"@],
            Language::BA => seq!["башҡорт теле"@],
            Language::BE => seq!["беларуская мова"@],
            Language::BG => seq!["български език"@],
            Language::BH => seq!["भोजपुरी"@],
            Language::BM => seq!["bamanankan"@],
            Language::BN => seq!["Bangla"@, "বাংলা"@],
            Language::BO => seq!["Tibetan Standard"@, "བོད་ཡིག"@],
            Language::BR => seq!["brezhoneg"@],
            Language::BS => seq!["bosanski jezik"@],
            Language::CA => seq!["català"@],
            Language::CE => seq!["нохчийн мотт"@],
            Language::CH => seq!["Chamoru"@],
            Language::CO => seq!["corsu"@, "lingua corsa"@],
            Language::CR => seq!["ᓀᐦᐃᔭᐍᐏᐣ"@],
            Language::CS => seq!["čeština"@, "český jazyk"@],
            Language::CU => seq!["Old Church Slavonic"@, "Old Bulgarian"@, "ѩзыкъ словѣньскъ"@],
            Language::CV => seq!["чӑваш чӗлхи"@],
            Language::CY => seq!["Cymraeg"@],
            Language::DA => seq!["dansk"@],
            Language::DE => seq!["Deutsch"@],
            Language::DV => seq!["Dhivehi"@, "Maldivian"@, "ދިވެހި"@],
            Language::DZ => seq!["རྫོང་ཁ"@],
            Language::EE => seq!["Eʋegbe"@],
            Language::EL => seq!["modern"@, "ελληνικά"@],
            Language::ES => seq!["Español"@],
            Language::ET => seq!["eesti"@, "eesti keel"@],
            Language::EU => seq!["euskara"@, "euskera"@],
            Language::FA => seq!["Farsi"@, "فارسی"@],
            Language::FF => seq!["Fulah"@, "Pulaar"@, "Pular"@, "Fulfulde"@],
            Language::FI => seq!["suomi"@, "suomen kieli"@],
            Language::FJ => seq!["vosa Vakaviti"@],
            Language::FO => seq!["føroyskt"@],
            Language::FR => seq!["français"@],
            Language::FY => seq!["Frysk"@],
            Language::GA => seq!["Gaeilge"@],
            Language::GD => seq!["Gaelic"@, "Gàidhlig"@],
            Language::GL => seq!["galego"@],
            Language::GN => seq!["Avañe'ẽ"@],
            Language::GU => seq!["ગુજરાતી"@],
            Language::GV => seq!["Gaelg"@, "Gailck"@],
            Language::HA => seq!["Hausa"@, "هَوُسَ"@],
            Language::HE => seq!["עברית"@],
            Language::HI => seq!["हिन्दी"@, "हिंदी"@],
            Language::HR => seq!["hrvatski jezik"@],
            Language::HT => seq!["Haitian Creole"@, "Kreyòl ayisyen"@],
            Language::HU => seq!["magyar"@],
            Language::HY => seq!["Հայերեն"@],
            Language::HZ => seq!["Otjiherero"@],
            Language::ID => seq!["Bahasa Indonesia"@],
            Language::IE => seq!["Occidental"@],
            Language::IG => seq!["Asụsụ Igbo"@],
            Language::II => seq!["ꆈꌠ꒿ Nuosuhxop"@],
            Language::IK => seq!["Iñupiaq"@, "Iñupiatun"@],
            Language::IS => seq!["Íslenska"@],
            Language::IT => seq!["Italiano"@],
            Language::IU => seq!["ᐃᓄᒃᑎᑐᑦ"@],
            Language::JA => seq!["日本語"@, "にほんご"@],
            Language::JV => seq!["ꦧꦱꦗꦮ"@, "Basa Jawa"@],
            Language::KA => seq!["ქართული"@],
            Language::KG => seq!["Kikongo"@],
            Language::KI => seq!["Gikuyu"@, "Gĩkũyũ"@],
            Language::KJ => seq!["Kuanyama"@, "Kuanyama"@],
            Language::KK => seq!["қазақ тілі"@],
            Language::KL => seq!["Greenlandic"@, "kalaallisut"@, "kalaallit oqaasii"@],
            Language::KM => seq!["ខ្មែរ"@, "ខេមរភាសា"@, "ភាសាខ្មែរ"@],
            Language::KN => seq!["ಕನ್ನಡ"@],
            Language::KO => seq!["한국어"@],
            Language::KS => seq!["कश्मीरी"@, "كشميري"@],
            Language::KU => seq!["Kurdî"@, "كوردی"@],
            Language::KV => seq!["коми кыв"@],
            Language::KW => seq!["Kernewek"@],
            Language::KY => seq!["Кыргызча"@, "Кыргыз тили"@],
            Language::LA => seq!["latine"@, "lingua latina"@],
            Language::LB => seq!["Letzeburgesch"@, "Lëtzebuergesch"@],
            Language::LG => seq!["Luganda"@],
            Language::LI => seq!["Limburgan"@, "Limburger"@, "Limburgs"@],
            Language::LN => seq!["Lingála"@],
            Language::LO => seq!["ພາສາລາວ"@],
            Language::LT => seq!["lietuvių kalba"@],
            Language::LU => seq!["Tshiluba"@],
            Language::LV => seq!["latviešu valoda"@],
            Language::MG => seq!["fiteny malagasy"@],
            Language::MH => seq!["Kajin M̧ajeļ"@],
            Language::MI => seq!["te reo Māori"@],
            Language::MK => seq!["македонски јазик"@],
            Language::ML => seq!["മലയാളം"@],
            Language::MN => seq!["Монгол хэл"@],
            Language::MR => seq!["Marāṭhī"@, "मराठी"@],
            Language::MS => seq!["bahasa Melayu"@, "بهاس ملايو"@],
            Language::MT => seq!["Malti"@],
            Language::MY => seq!["ဗမာစာ"@],
            Language::NA => seq!["Dorerin Naoero"@],
            Language::NB => seq!["Norsk bokmål"@],
            Language::ND => seq!["isiNdebele"@],
            Language::NE => seq!["नेपाली"@],
            Language::NG => seq!["Owambo"@],
            Language::NL => seq!["Nederlands"@, "Vlaams"@],
            Language::NN => seq!["Norsk nynorsk"@],
            Language::NO => seq!["Norsk"@],
            Language::NR => seq!["isiNdebele"@],
            Language::NV => seq!["Navaho"@, "Diné bizaad"@],
            Language::NY => seq!["Chewa"@, "Nyanja"@, "chiCheŵa"@, "chinyanja"@],
            Language::OC => seq!["occitan"@, "lenga d'òc"@],
            Language::OJ => seq!["Ojibwa"@, "ᐊᓂᔑᓈᐯᒧᐎᓐ"@],
            Language::OM => seq!["Afaan Oromoo"@],
            Language::OR => seq!["ଓଡ଼ିଆ"@],
            Language::OS => seq!["Ossetic"@, "ирон æвзаг"@],
            Language::PA => seq!["ਪੰਜਾਬੀ"@],
            Language::PI => seq!["Pāli"@, "पाऴि"@],
            Language::PL => seq!["język polski"@, "polszczyzna"@],
            Language::PS => seq!["Pushto"@, "پښتو"@],
            Language::PT => seq!["Português"@],
            Language::QU => seq!["Runa Simi"@, "Kichwa"@],
            Language::RM => seq!["rumantsch grischun"@],
            Language::RN => seq!["Ikirundi"@],
            Language::RO => seq!["Română"@],
            Language::RU => seq!["Русский"@],
            Language::RW => seq!["Ikinyarwanda"@],
            Language::SA => seq!["Saṁskṛta"@, "संस्कृतम्"@],
            Language::SC => seq!["sardu"@],
            Language::SD => seq!["सिन्धी"@, "سنڌي، سندھی"@],
            Language::SE => seq!["Davvisámegiella"@],
            Language::SG => seq!["yângâ tî sängö"@],
            Language::SI => seq!["Sinhala"@, "සිංහල"@],
            Language::SK => seq!["slovenčina"@, "slovenský jazyk"@],
            Language::SL => seq!["slovenski jezik"@, "slovenščina"@],
            Language::SM => seq!["gagana fa'a Samoa"@],
            Language::SN => seq!["chiShona"@],
            Language::SO => seq!["Soomaaliga"@, "af Soomaali"@],
            Language::SQ => seq!["Shqip"@],
            Language::SR => seq!["српски језик"@],
            Language::SS => seq!["SiSwati"@],
            Language::ST => seq!["Sesotho"@],
            Language::SU => seq!["Basa Sunda"@],
            Language::SV => seq!["svenska"@],
            Language::SW => seq!["Kiswahili"@],
            Language::TA => seq!["தமிழ்"@],
            Language::TE => seq!["తెలుగు"@],
            Language::TG => seq!["тоҷикӣ"@, "toçikī"@, "تاجیکی"@],
            Language::TH => seq!["ไทย"@],
            Language::TI => seq!["ትግርኛ"@],
            Language::TK => seq!["Türkmen"@, "Түркмен"@],
            Language::TL => seq!["Wikang Tagalog"@],
            Language::TN => seq!["Setswana"@],
            Language::TO => seq!["Tonga Islands"@, "faka Tonga"@],
            Language::TR => seq!["Türkçe"@],
            Language::TS => seq!["Xitsonga"@],
            Language::TT => seq!["татар теле"@, "tatar tele"@],
            Language::TY => seq!["Reo Tahiti"@],
            Language::UG => seq!["ئۇيغۇرچە"@, "Uyghurche"@],
            Language::UK => seq!["Українська"@],
            Language::UR => seq!["اردو"@],
            Language::UZ => seq!["Oʻzbek"@, "Ўзбек"@, "أۇزبېك"@],
            Language::VE => seq!["Tshivenḓa"@],
            Language::VI => seq!["Tiếng Việt"@],
            Language::WA => seq!["walon"@],
            Language::WO => seq!["Wollof"@],
            Language::XH => seq!["isiXhosa"@],
            Language::YI => seq!["ייִדיש"@],
            Language::YO => seq!["Yorùbá"@],
            Language::ZA => seq!["Chuang"@, "Saɯ cueŋƅ"@, "Saw cuengh"@],
            Language::ZH => seq!["中文"@, "汉语"@, "漢語"@],
            Language::ZU => seq!["isiZulu"@],
            _ => Seq::empty(),
        }
    }

    /// The other spellings that the language answers to, mostly its own name for itself.
    pub fn alternatives(&self) -> (r: Vec<&'static str>)
        ensures
            r@.len() == self.alternatives_text().len(),
            forall|i: int| 0 <= i < r@.len() ==> (#[trigger] r@[i])@ == self.alternatives_text()[i],
    {
        match self {
            Language::AA => vec!["Afaraf"],
            Language::AB => vec!["аҧсшәа"],
            Language::AE => vec!["Avesta"],
            Language::AM => vec!["አማርኛ"],
            Language::AN => vec!["aragonés"],
            Language::AR => vec!["العربية"],
            Language::AS => vec!["অসমীয়া"],
            Language::AV => vec!["авар мацӀ", "магӀарул мацӀ"],
            Language::AY => vec!["aymar aru"],
            Language::AZ => vec!["azərbaycan dili"],
            Language::BA => vec!["башҡорт теле"],
            Language::BE => vec!["беларуская мова"],
            Language::BG => vec!["български език"],
            Language::BH => vec!["भोजपुरी"],
            Language::BM => vec!["bamanankan"],
            Language::BN => vec!["Bangla", "বাংলা"],
            Language::BO => vec!["Tibetan Standard", "བོད་ཡིག"],
            Language::BR => vec!["brezhoneg"],
            Language::BS => vec!["bosanski jezik"],
            Language::CA => vec!["català"],
            Language::CE => vec!["нохчийн мотт"],
            Language::CH => vec!["Chamoru"],
            Language::CO => vec!["corsu", "lingua corsa"],
            Language::CR => vec!["ᓀᐦᐃᔭᐍᐏᐣ"],
            Language::CS => vec!["čeština", "český jazyk"],
            Language::CU => vec!["Old Church Slavonic", "Old Bulgarian", "ѩзыкъ словѣньскъ"],
            Language::CV => vec!["чӑваш чӗлхи"],
            Language::CY => vec!["Cymraeg"],
            Language::DA => vec!["dansk"],
            Language::DE => vec!["Deutsch"],
            Language::DV => vec!["Dhivehi", "Maldivian", "ދިވެހި"],
            Language::DZ => vec!["རྫོང་ཁ"],
            Language::EE => vec!["Eʋegbe"],
            Language::EL => vec!["modern", "ελληνικά"],
            Language::ES => vec!["Español"],
            Language::ET => vec!["eesti", "eesti keel"],
            Language::EU => vec!["euskara", "euskera"],
            Language::FA => vec!["Farsi", "فارسی"],
            Language::FF => vec!["Fulah", "Pulaar", "Pular", "Fulfulde"],
            Language::FI => vec!["suomi", "suomen kieli"],
            Language::FJ => vec!["vosa Vakaviti"],
            Language::FO => vec!["føroyskt"],
            Language::FR => vec!["français"],
            Language::FY => vec!["Frysk"],
            Language::GA => vec!["Gaeilge"],
            Language::GD => vec!["Gaelic", "Gàidhlig"],
            Language::GL => vec!["galego"],
            Language::GN => vec!["Avañe'ẽ"],
            Language::GU => vec!["ગુજરાતી"],
            Language::GV => vec!["Gaelg", "Gailck"],
            Language::HA => vec!["Hausa", "هَوُسَ"],
            Language::HE => vec!["עברית"],
            Language::HI => vec!["हिन्दी", "हिंदी"],
            Language::HR => vec!["hrvatski jezik"],
            Language::HT => vec!["Haitian Creole", "Kreyòl ayisyen"],
            Language::HU => vec!["magyar"],
            Language::HY => vec!["Հայերեն"],
            Language::HZ => vec!["Otjiherero"],
            Language::ID => vec!["Bahasa Indonesia"],
            Language::IE => vec!["Occidental"],
            Language::IG => vec!["Asụsụ Igbo"],
            Language::II => vec!["ꆈꌠ꒿ Nuosuhxop"],
            Language::IK => vec!["Iñupiaq", "Iñupiatun"],
            Language::IS => vec!["Íslenska"],
            Language::IT => vec!["Italiano"],
            Language::IU => vec!["ᐃᓄᒃᑎᑐᑦ"],
            Language::JA => vec!["日本語", "にほんご"],
            Language::JV => vec!["ꦧꦱꦗꦮ", "Basa Jawa"],
            Language::KA => vec!["ქართული"],
            Language::KG => vec!["Kikongo"],
            Language::KI => vec!["Gikuyu", "Gĩkũyũ"],
            Language::KJ => vec!["Kuanyama", "Kuanyama"],
            Language::KK => vec!["қазақ тілі"],
            Language::KL => vec!["Greenlandic", "kalaallisut", "kalaallit oqaasii"],
            Language::KM => vec!["ខ្មែរ", "ខេមរភាសា", "ភាសាខ្មែរ"],
            Language::KN => vec!["ಕನ್ನಡ"],
            Language::KO => vec!["한국어"],
            Language::KS => vec!["कश्मीरी", "كشميري"],
            Language::KU => vec!["Kurdî", "كوردی"],
            Language::KV => vec!["коми кыв"],
            Language::KW => vec!["Kernewek"],
            Language::KY => vec!["Кыргызча", "Кыргыз тили"],
            Language::LA => vec!["latine", "lingua latina"],
            Language::LB => vec!["Letzeburgesch", "Lëtzebuergesch"],
            Language::LG => vec!["Luganda"],
            Language::LI => vec!["Limburgan", "Limburger", "Limburgs"],
            Language::LN => vec!["Lingála"],
            Language::LO => vec!["ພາສາລາວ"],
            Language::LT => vec!["lietuvių kalba"],
            Language::LU => vec!["Tshiluba"],
            Language::LV => vec!["latviešu valoda"],
            Language::MG => vec!["fiteny malagasy"],
            Language::MH => vec!["Kajin M̧ajeļ"],
            Language::MI => vec!["te reo Māori"],
            Language::MK => vec!["македонски јазик"],
            Language::ML => vec!["മലയാളം"],
            Language::MN => vec!["Монгол хэл"],
            Language::MR => vec!["Marāṭhī", "मराठी"],
            Language::MS => vec!["bahasa Melayu", "بهاس ملايو"],
            Language::MT => vec!["Malti"],
            Language::MY => vec!["ဗမာစာ"],
            Language::NA => vec!["Dorerin Naoero"],
            Language::NB => vec!["Norsk bokmål"],
            Language::ND => vec!["isiNdebele"],
            Language::NE => vec!["नेपाली"],
            Language::NG => vec!["Owambo"],
            Language::NL => vec!["Nederlands", "Vlaams"],
            Language::NN => vec!["Norsk nynorsk"],
            Language::NO => vec!["Norsk"],
            Language::NR => vec!["isiNdebele"],
            Language::NV => vec!["Navaho", "Diné bizaad"],
            Language::NY => vec!["Chewa", "Nyanja", "chiCheŵa", "chinyanja"],
            Language::OC => vec!["occitan", "lenga d'òc"],
            Language::OJ => vec!["Ojibwa", "ᐊᓂᔑᓈᐯᒧᐎᓐ"],
            Language::OM => vec!["Afaan Oromoo"],
            Language::OR => vec!["ଓଡ଼ିଆ"],
            Language::OS => vec!["Ossetic", "ирон æвзаг"],
            Language::PA => vec!["ਪੰਜਾਬੀ"],
            Language::PI => vec!["Pāli", "पाऴि"],
            Language::PL => vec!["język polski", "polszczyzna"],
            Language::PS => vec!["Pushto", "پښتو"],
            Language::PT => vec!["Português"],
            Language::QU => vec!["Runa Simi", "Kichwa"],
            Language::RM => vec!["rumantsch grischun"],
            Language::RN => vec!["Ikirundi"],
            Language::RO => vec!["Română"],
            Language::RU => vec!["Русский"],
            Language::RW => vec!["Ikinyarwanda"],
            Language::SA => vec!["Saṁskṛta", "संस्कृतम्"],
            Language::SC => vec!["sardu"],
            Language::SD => vec!["सिन्धी", "سنڌي، سندھی"],
            Language::SE => vec!["Davvisámegiella"],
            Language::SG => vec!["yângâ tî sängö"],
            Language::SI => vec!["Sinhala", "සිංහල"],
            Language::SK => vec!["slovenčina", "slovenský jazyk"],
            Language::SL => vec!["slovenski jezik", "slovenščina"],
            Language::SM => vec!["gagana fa'a Samoa"],
            Language::SN => vec!["chiShona"],
            Language::SO => vec!["Soomaaliga", "af Soomaali"],
            Language::SQ => vec!["Shqip"],
            Language::SR => vec!["српски језик"],
            Language::SS => vec!["SiSwati"],
            Language::ST => vec!["Sesotho"],
            Language::SU => vec!["Basa Sunda"],
            Language::SV => vec!["svenska"],
            Language::SW => vec!["Kiswahili"],
            Language::TA => vec!["தமிழ்"],
            Language::TE => vec!["తెలుగు"],
            Language::TG => vec!["тоҷикӣ", "toçikī", "تاجیکی"],
            Language::TH => vec!["ไทย"],
            Language::TI => vec!["ትግርኛ"],
            Language::TK => vec!["Türkmen", "Түркмен"],
            Language::TL => vec!["Wikang Tagalog"],
            Language::TN => vec!["Setswana"],
            Language::TO => vec!["Tonga Islands", "faka Tonga"],
            Language::TR => vec!["Türkçe"],
            Language::TS => vec!["Xitsonga"],
            Language::TT => vec!["татар теле", "tatar tele"],
            Language::TY => vec!["Reo Tahiti"],
            Language::UG => vec!["ئۇيغۇرچە", "Uyghurche"],
            Language::UK => vec!["Українська"],
            Language::UR => vec!["اردو"],
            Language::UZ => vec!["Oʻzbek", "Ўзбек", "أۇزبېك"],
            Language::VE => vec!["Tshivenḓa"],
            Language::VI => vec!["Tiếng Việt"],
            Language::WA => vec!["walon"],
            Language::WO => vec!["Wollof"],
            Language::XH => vec!["isiXhosa"],
            Language::YI => vec!["ייִדיש"],
            Language::YO => vec!["Yorùbá"],
            Language::ZA => vec!["Chuang", "Saɯ cueŋƅ", "Saw cuengh"],
            Language::ZH => vec!["中文", "汉语", "漢語"],
            Language::ZU => vec!["isiZulu"],
            _ => Vec::new(),
        }
    }

    /// Every language, in the order of the catalog.
    pub fn all() -> (r: Vec<Language>)
        ensures
            r@ == catalog(),
    {
        let r = vec![
            Language::AA,
            Language::AB,
            Language::AE,
            Language::AF,
            Language::AK,
            Language::AM,
            Language::AN,
            Language::AR,
            Language::AS,
            Language::AV,
            Language::AY,
            Language::AZ,
            Language::BA,
            Language::BE,
            Language::BG,
            Language::BH,
            Language::BI,
            Language::BM,
            Language::BN,
            Language::BO,
            Language::BR,
            Language::BS,
            Language::CA,
            Language::CE,
            Language::CH,
            Language::CO,
            Language::CR,
            Language::CS,
            Language::CU,
            Language::CV,
            Language::CY,
            Language::DA,
            Language::DE,
            Language::DV,
            Language::DZ,
            Language::EE,
            Language::EL,
            Language::EN,
            Language::EO,
            Language::ES,
            Language::ET,
            Language::EU,
            Language::FA,
            Language::FF,
            Language::FI,
            Language::FJ,
            Language::FO,
            Language::FR,
            Language::FY,
            Language::GA,
            Language::GD,
            Language::GL,
            Language::GN,
            Language::GU,
            Language::GV,
            Language::HA,
            Language::HE,
            Language::HI,
            Language::HO,
            Language::HR,
            Language::HT,
            Language::HU,
            Language::HY,
            Language::HZ,
            Language::IA,
            Language::ID,
            Language::IE,
            Language::IG,
            Language::II,
            Language::IK,
            Language::IO,
            Language::IS,
            Language::IT,
            Language::IU,
            Language::JA,
            Language::JV,
            Language::KA,
            Language::KG,
            Language::KI,
            Language::KJ,
            Language::KK,
            Language::KL,
            Language::KM,
            Language::KN,
            Language::KO,
            Language::KR,
            Language::KS,
            Language::KU,
            Language::KV,
            Language::KW,
            Language::KY,
            Language::LA,
            Language::LB,
            Language::LG,
            Language::LI,
            Language::LN,
            Language::LO,
            Language::LT,
            Language::LU,
            Language::LV,
            Language::MG,
            Language::MH,
            Language::MI,
            Language::MK,
            Language::ML,
            Language::MN,
            Language::MR,
            Language::MS,
            Language::MT,
            Language::MY,
            Language::NA,
            Language::NB,
            Language::ND,
            Language::NE,
            Language::NG,
            Language::NL,
            Language::NN,
            Language::NO,
            Language::NR,
            Language::NV,
            Language::NY,
            Language::OC,
            Language::OJ,
            Language::OM,
            Language::OR,
            Language::OS,
            Language::PA,
            Language::PI,
            Language::PL,
            Language::PS,
            Language::PT,
            Language::QU,
            Language::RM,
            Language::RN,
            Language::RO,
            Language::RU,
            Language::RW,
            Language::SA,
            Language::SC,
            Language::SD,
            Language::SE,
            Language::SG,
            Language::SI,
            Language::SK,
            Language::SL,
            Language::SM,
            Language::SN,
            Language::SO,
            Language::SQ,
            Language::SR,
            Language::SS,
            Language::ST,
            Language::SU,
            Language::SV,
            Language::SW,
            Language::TA,
            Language::TE,
            Language::TG,
            Language::TH,
            Language::TI,
            Language::TK,
            Language::TL,
            Language::TN,
            Language::TO,
            Language::TR,
            Language::TS,
            Language::TT,
            Language::TW,
            Language::TY,
            Language::UG,
            Language::UK,
            Language::UR,
            Language::UZ,
            Language::VE,
            Language::VI,
            Language::VO,
            Language::WA,
            Language::WO,
            Language::XH,
            Language::YI,
            Language::YO,
            Language::ZA,
            Language::ZH,
            Language::ZU,
        ];
        proof {
            assert(r@ =~= catalog());
        }
        r
    }

    /// The position of the language in the catalog.
    pub open spec fn ordinal(self) -> int {
        match self {
            Language::AA => 0,
            Language::AB => 1,
            Language::AE => 2,
            Language::AF => 3,
            Language::AK => 4,
            Language::AM => 5,
            Language::AN => 6,
            Language::AR => 7,
            Language::AS => 8,
            Language::AV => 9,
            Language::AY => 10,
            Language::AZ => 11,
            Language::BA => 12,
            Language::BE => 13,
            Language::BG => 14,
            Language::BH => 15,
            Language::BI => 16,
            Language::BM => 17,
            Language::BN => 18,
            Language::BO => 19,
            Language::BR => 20,
            Language::BS => 21,
            Language::CA => 22,
            Language::CE => 23,
            Language::CH => 24,
            Language::CO => 25,
            Language::CR => 26,
            Language::CS => 27,
            Language::CU => 28,
            Language::CV => 29,
            Language::CY => 30,
            Language::DA => 31,
            Language::DE => 32,
            Language::DV => 33,
            Language::DZ => 34,
            Language::EE => 35,
            Language::EL => 36,
            Language::EN => 37,
            Language::EO => 38,
            Language::ES => 39,
            Language::ET => 40,
            Language::EU => 41,
            Language::FA => 42,
            Language::FF => 43,
            Language::FI => 44,
            Language::FJ => 45,
            Language::FO => 46,
            Language::FR => 47,
            Language::FY => 48,
            Language::GA => 49,
            Language::GD => 50,
            Language::GL => 51,
            Language::GN => 52,
            Language::GU => 53,
            Language::GV => 54,
            Language::HA => 55,
            Language::HE => 56,
            Language::HI => 57,
            Language::HO => 58,
            Language::HR => 59,
            Language::HT => 60,
            Language::HU => 61,
            Language::HY => 62,
            Language::HZ => 63,
            Language::IA => 64,
            Language::ID => 65,
            Language::IE => 66,
            Language::IG => 67,
            Language::II => 68,
            Language::IK => 69,
            Language::IO => 70,
            Language::IS => 71,
            Language::IT => 72,
            Language::IU => 73,
            Language::JA => 74,
            Language::JV => 75,
            Language::KA => 76,
            Language::KG => 77,
            Language::KI => 78,
            Language::KJ => 79,
            Language::KK => 80,
            Language::KL => 81,
            Language::KM => 82,
            Language::KN => 83,
            Language::KO => 84,
            Language::KR => 85,
            Language::KS => 86,
            Language::KU => 87,
            Language::KV => 88,
            Language::KW => 89,
            Language::KY => 90,
            Language::LA => 91,
            Language::LB => 92,
            Language::LG => 93,
            Language::LI => 94,
            Language::LN => 95,
            Language::LO => 96,
            Language::LT => 97,
            Language::LU => 98,
            Language::LV => 99,
            Language::MG => 100,
            Language::MH => 101,
            Language::MI => 102,
            Language::MK => 103,
            Language::ML => 104,
            Language::MN => 105,
            Language::MR => 106,
            Language::MS => 107,
            Language::MT => 108,
            Language::MY => 109,
            Language::NA => 110,
            Language::NB => 111,
            Language::ND => 112,
            Language::NE => 113,
            Language::NG => 114,
            Language::NL => 115,
            Language::NN => 116,
            Language::NO => 117,
            Language::NR => 118,
            Language::NV => 119,
            Language::NY => 120,
            Language::OC => 121,
            Language::OJ => 122,
            Language::OM => 123,
            Language::OR => 124,
            Language::OS => 125,
            Language::PA => 126,
            Language::PI => 127,
            Language::PL => 128,
            Language::PS => 129,
            Language::PT => 130,
            Language::QU => 131,
            Language::RM => 132,
            Language::RN => 133,
            Language::RO => 134,
            Language::RU => 135,
            Language::RW => 136,
            Language::SA => 137,
            Language::SC => 138,
            Language::SD => 139,
            Language::SE => 140,
            Language::SG => 141,
            Language::SI => 142,
            Language::SK => 143,
            Language::SL => 144,
            Language::SM => 145,
            Language::SN => 146,
            Language::SO => 147,
            Language::SQ => 148,
            Language::SR => 149,
            Language::SS => 150,
            Language::ST => 151,
            Language::SU => 152,
            Language::SV => 153,
            Language::SW => 154,
            Language::TA => 155,
            Language::TE => 156,
            Language::TG => 157,
            Language::TH => 158,
            Language::TI => 159,
            Language::TK => 160,
            Language::TL => 161,
            Language::TN => 162,
            Language::TO => 163,
            Language::TR => 164,
            Language::TS => 165,
            Language::TT => 166,
            Language::TW => 167,
            Language::TY => 168,
            Language::UG => 169,
            Language::UK => 170,
            Language::UR => 171,
            Language::UZ => 172,
            Language::VE => 173,
            Language::VI => 174,
            Language::VO => 175,
            Language::WA => 176,
            Language::WO => 177,
            Language::XH => 178,
            Language::YI => 179,
            Language::YO => 180,
            Language::ZA => 181,
            Language::ZH => 182,
            Language::ZU => 183,
        }
    }
}

/// The catalog holds every language, each at its position.
pub proof fn lemma_catalog_complete(language: Language)
    ensures
        0 <= language.ordinal() < catalog().len(),
        catalog()[language.ordinal()] == language,
{
}

} // verus!
